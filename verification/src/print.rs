use vstd::prelude::*;
use vstd::std_specs::convert::FromSpecImpl;
use vstd::string::StringExecFns;
use crate::text::{decimal, push_decimal, repeat_seq, repeat_str, char_count};
use crate::math::{Vec2, fits_i32, can_add, can_sub, vec_add, vec_sub};
use crate::physics::{AABB, min_i32, max_i32, can_translate, translated};
use crate::line::{abs, step_toward, bres_state, bres_step, bres_steps, lemma_bres_walk, lemma_walk_in_range, x_major_at, y_major_at, BresState};
use crate::game::screen::{Screen, CommandView, CursorMoveTo, concat_cmds, move_to, print_in, reset_in};

verus! {

/// The colours a cell's foreground or background can have.
///
/// `Default` stands for "whatever the screen's own colour is"; `ResetColor`
/// for the terminal's reset colour.
#[derive(Debug, Clone, Copy, PartialEq, Eq, Structural)]
pub enum GColor {
    Black,
    DarkGrey,
    White,
    Grey,
    DarkRed,
    Red,
    DarkGreen,
    Green,
    DarkYellow,
    Yellow,
    DarkBlue,
    Blue,
    DarkMagenta,
    Magenta,
    DarkCyan,
    Cyan,
    RGB(u8, u8, u8),
    ResetColor,
    Default,
}

/// A colour as red, green and blue levels; `res` marks the reset colour.
#[derive(Debug, Clone, Copy, PartialEq, Eq, Structural)]
pub struct RGB {
    pub r: u8,
    pub g: u8,
    pub b: u8,
    pub res: bool,
}

/// A plain (non-reset) colour.
pub open spec fn rgb(r: u8, g: u8, b: u8) -> RGB {
    RGB { r, g, b, res: false }
}

/// The levels of each named colour. `Default` has none; it is mapped to
/// black here only so that the function is total.
pub open spec fn gcolor_rgb(c: GColor) -> RGB {
    match c {
        GColor::Black => rgb(0, 0, 0),
        GColor::DarkGrey => rgb(128, 128, 128),
        GColor::White => rgb(255, 255, 255),
        GColor::Grey => rgb(192, 192, 192),
        GColor::DarkRed => rgb(128, 0, 0),
        GColor::Red => rgb(255, 0, 0),
        GColor::DarkGreen => rgb(0, 128, 0),
        GColor::Green => rgb(0, 255, 0),
        GColor::DarkYellow => rgb(128, 128, 0),
        GColor::Yellow => rgb(255, 255, 0),
        GColor::DarkBlue => rgb(0, 0, 128),
        GColor::Blue => rgb(0, 0, 255),
        GColor::DarkMagenta => rgb(128, 0, 128),
        GColor::Magenta => rgb(255, 0, 255),
        GColor::DarkCyan => rgb(0, 128, 128),
        GColor::Cyan => rgb(0, 255, 255),
        GColor::RGB(r, g, b) => rgb(r, g, b),
        GColor::ResetColor => RGB { r: 0, g: 0, b: 0, res: true },
        GColor::Default => rgb(0, 0, 0),
    }
}

/// The named colour with exactly these levels, if there is one; else the
/// colour given by its levels.
pub open spec fn rgb_gcolor(v: RGB) -> GColor {
    if v.res {
        GColor::ResetColor
    } else if v.r == 0 && v.g == 0 && v.b == 0 {
        GColor::Black
    } else if v.r == 128 && v.g == 128 && v.b == 128 {
        GColor::DarkGrey
    } else if v.r == 255 && v.g == 255 && v.b == 255 {
        GColor::White
    } else if v.r == 192 && v.g == 192 && v.b == 192 {
        GColor::Grey
    } else if v.r == 128 && v.g == 0 && v.b == 0 {
        GColor::DarkRed
    } else if v.r == 255 && v.g == 0 && v.b == 0 {
        GColor::Red
    } else if v.r == 0 && v.g == 128 && v.b == 0 {
        GColor::DarkGreen
    } else if v.r == 0 && v.g == 255 && v.b == 0 {
        GColor::Green
    } else if v.r == 128 && v.g == 128 && v.b == 0 {
        GColor::DarkYellow
    } else if v.r == 255 && v.g == 255 && v.b == 0 {
        GColor::Yellow
    } else if v.r == 0 && v.g == 0 && v.b == 128 {
        GColor::DarkBlue
    } else if v.r == 0 && v.g == 0 && v.b == 255 {
        GColor::Blue
    } else if v.r == 128 && v.g == 0 && v.b == 128 {
        GColor::DarkMagenta
    } else if v.r == 255 && v.g == 0 && v.b == 255 {
        GColor::Magenta
    } else if v.r == 0 && v.g == 128 && v.b == 128 {
        GColor::DarkCyan
    } else if v.r == 0 && v.g == 255 && v.b == 255 {
        GColor::Cyan
    } else {
        GColor::RGB(v.r, v.g, v.b)
    }
}

/// Level of one channel of the 6x6x6 colour cube.
pub open spec fn cube_level(k: int) -> u8 {
    (k * 51) as u8
}

/// Grey level of the 24-step grey ramp.
pub open spec fn grey_level(k: int) -> u8 {
    (k * 10 + 8) as u8
}

/// The levels of a 256-colour ANSI code.
pub open spec fn ansi_rgb(code: u8) -> RGB {
    if code == 0 { rgb(0, 0, 0) }
    else if code == 1 { rgb(128, 0, 0) }
    else if code == 2 { rgb(0, 128, 0) }
    else if code == 3 { rgb(128, 128, 0) }
    else if code == 4 { rgb(0, 0, 128) }
    else if code == 5 { rgb(128, 0, 128) }
    else if code == 6 { rgb(0, 128, 128) }
    else if code == 7 { rgb(192, 192, 192) }
    else if code == 8 { rgb(128, 128, 128) }
    else if code == 9 { rgb(255, 0, 0) }
    else if code == 10 { rgb(0, 255, 0) }
    else if code == 11 { rgb(255, 255, 0) }
    else if code == 12 { rgb(0, 0, 255) }
    else if code == 13 { rgb(255, 0, 255) }
    else if code == 14 { rgb(0, 255, 255) }
    else if code == 15 { rgb(255, 255, 255) }
    else if code <= 231 {
        let n = code - 16;
        rgb(cube_level(n / 36), cube_level((n % 36) / 6), cube_level(n % 6))
    } else {
        let k = code - 232;
        rgb(grey_level(k), grey_level(k), grey_level(k))
    }
}

/// The colour of a 256-colour ANSI code, the first eight by name.
pub open spec fn ansi_gcolor(code: u8) -> GColor {
    if code == 0 { GColor::Black }
    else if code == 1 { GColor::Red }
    else if code == 2 { GColor::Green }
    else if code == 3 { GColor::Yellow }
    else if code == 4 { GColor::Blue }
    else if code == 5 { GColor::Magenta }
    else if code == 6 { GColor::Cyan }
    else if code == 7 { GColor::White }
    else {
        let v = ansi_rgb(code);
        GColor::RGB(v.r, v.g, v.b)
    }
}

impl Default for RGB {
    fn default() -> (r: Self)
        ensures
            r == rgb(0, 0, 0),
    {
        RGB { r: 0, g: 0, b: 0, res: false }
    }
}

impl From<(u8, u8, u8)> for RGB {
    fn from(value: (u8, u8, u8)) -> (r: Self) {
        RGB { r: value.0, g: value.1, b: value.2, res: false }
    }
}

impl FromSpecImpl<(u8, u8, u8)> for RGB {
    open spec fn obeys_from_spec() -> bool {
        true
    }

    open spec fn from_spec(v: (u8, u8, u8)) -> RGB {
        rgb(v.0, v.1, v.2)
    }
}

impl From<(u8, u8, u8)> for GColor {
    fn from(value: (u8, u8, u8)) -> (r: Self) {
        GColor::RGB(value.0, value.1, value.2)
    }
}

impl FromSpecImpl<(u8, u8, u8)> for GColor {
    open spec fn obeys_from_spec() -> bool {
        true
    }

    open spec fn from_spec(v: (u8, u8, u8)) -> GColor {
        GColor::RGB(v.0, v.1, v.2)
    }
}

impl From<bool> for RGB {
    fn from(value: bool) -> (r: Self) {
        RGB { r: 0, g: 0, b: 0, res: value }
    }
}

impl FromSpecImpl<bool> for RGB {
    open spec fn obeys_from_spec() -> bool {
        true
    }

    open spec fn from_spec(v: bool) -> RGB {
        RGB { r: 0, g: 0, b: 0, res: v }
    }
}

/// A 256-colour ANSI code as levels.
impl From<u8> for RGB {
    fn from(value: u8) -> (r: Self) {
        let (r, g, b): (u8, u8, u8) = if value == 0 { (0, 0, 0) }
        else if value == 1 { (128, 0, 0) }
        else if value == 2 { (0, 128, 0) }
        else if value == 3 { (128, 128, 0) }
        else if value == 4 { (0, 0, 128) }
        else if value == 5 { (128, 0, 128) }
        else if value == 6 { (0, 128, 128) }
        else if value == 7 { (192, 192, 192) }
        else if value == 8 { (128, 128, 128) }
        else if value == 9 { (255, 0, 0) }
        else if value == 10 { (0, 255, 0) }
        else if value == 11 { (255, 255, 0) }
        else if value == 12 { (0, 0, 255) }
        else if value == 13 { (255, 0, 255) }
        else if value == 14 { (0, 255, 255) }
        else if value == 15 { (255, 255, 255) }
        else if value <= 231 {
            let n = value - 16;
            let r = n / 36;
            let g = (n % 36) / 6;
            let b = n % 6;
            (r * 51, g * 51, b * 51)
        } else {
            let level = (value - 232) * 10 + 8;
            (level, level, level)
        };
        RGB { r, g, b, res: false }
    }
}

impl FromSpecImpl<u8> for RGB {
    open spec fn obeys_from_spec() -> bool {
        true
    }

    open spec fn from_spec(v: u8) -> RGB {
        ansi_rgb(v)
    }
}

impl RGB {
    /// The levels of a colour; `GColor::Default` has none.
    pub fn from_gcolor(value: GColor) -> (r: Self)
        requires
            value != GColor::Default,
        ensures
            r == gcolor_rgb(value),
    {
        match value {
            GColor::Black => RGB { r: 0, g: 0, b: 0, res: false },
            GColor::DarkGrey => RGB { r: 128, g: 128, b: 128, res: false },
            GColor::White => RGB { r: 255, g: 255, b: 255, res: false },
            GColor::Grey => RGB { r: 192, g: 192, b: 192, res: false },
            GColor::DarkRed => RGB { r: 128, g: 0, b: 0, res: false },
            GColor::Red => RGB { r: 255, g: 0, b: 0, res: false },
            GColor::DarkGreen => RGB { r: 0, g: 128, b: 0, res: false },
            GColor::Green => RGB { r: 0, g: 255, b: 0, res: false },
            GColor::DarkYellow => RGB { r: 128, g: 128, b: 0, res: false },
            GColor::Yellow => RGB { r: 255, g: 255, b: 0, res: false },
            GColor::DarkBlue => RGB { r: 0, g: 0, b: 128, res: false },
            GColor::Blue => RGB { r: 0, g: 0, b: 255, res: false },
            GColor::DarkMagenta => RGB { r: 128, g: 0, b: 128, res: false },
            GColor::Magenta => RGB { r: 255, g: 0, b: 255, res: false },
            GColor::DarkCyan => RGB { r: 0, g: 128, b: 128, res: false },
            GColor::Cyan => RGB { r: 0, g: 255, b: 255, res: false },
            GColor::RGB(r, g, b) => RGB { r, g, b, res: false },
            GColor::ResetColor => RGB { r: 0, g: 0, b: 0, res: true },
            GColor::Default => RGB { r: 0, g: 0, b: 0, res: false },
        }
    }
}

impl From<RGB> for GColor {
    fn from(value: RGB) -> (r: Self) {
        if value.res {
            GColor::ResetColor
        } else {
            match (value.r, value.g, value.b) {
                (0, 0, 0) => GColor::Black,
                (128, 128, 128) => GColor::DarkGrey,
                (255, 255, 255) => GColor::White,
                (192, 192, 192) => GColor::Grey,
                (128, 0, 0) => GColor::DarkRed,
                (255, 0, 0) => GColor::Red,
                (0, 128, 0) => GColor::DarkGreen,
                (0, 255, 0) => GColor::Green,
                (128, 128, 0) => GColor::DarkYellow,
                (255, 255, 0) => GColor::Yellow,
                (0, 0, 128) => GColor::DarkBlue,
                (0, 0, 255) => GColor::Blue,
                (128, 0, 128) => GColor::DarkMagenta,
                (255, 0, 255) => GColor::Magenta,
                (0, 128, 128) => GColor::DarkCyan,
                (0, 255, 255) => GColor::Cyan,
                (r, g, b) => GColor::RGB(r, g, b),
            }
        }
    }
}

impl FromSpecImpl<RGB> for GColor {
    open spec fn obeys_from_spec() -> bool {
        true
    }

    open spec fn from_spec(v: RGB) -> GColor {
        rgb_gcolor(v)
    }
}

/// The colour of a 256-colour ANSI code.
pub fn ansi_to_gcolor(code: u8) -> (r: GColor)
    ensures
        r == ansi_gcolor(code),
{
    if code == 0 { GColor::Black }
    else if code == 1 { GColor::Red }
    else if code == 2 { GColor::Green }
    else if code == 3 { GColor::Yellow }
    else if code == 4 { GColor::Blue }
    else if code == 5 { GColor::Magenta }
    else if code == 6 { GColor::Cyan }
    else if code == 7 { GColor::White }
    else if code == 8 { GColor::RGB(128, 128, 128) }
    else if code == 9 { GColor::RGB(255, 0, 0) }
    else if code == 10 { GColor::RGB(0, 255, 0) }
    else if code == 11 { GColor::RGB(255, 255, 0) }
    else if code == 12 { GColor::RGB(0, 0, 255) }
    else if code == 13 { GColor::RGB(255, 0, 255) }
    else if code == 14 { GColor::RGB(0, 255, 255) }
    else if code == 15 { GColor::RGB(255, 255, 255) }
    else if code <= 231 {
        let n = code - 16;
        let r = n / 36;
        let g = (n % 36) / 6;
        let b = n % 6;
        GColor::RGB(r * 51, g * 51, b * 51)
    } else {
        let level = (code - 232) * 10 + 8;
        GColor::RGB(level, level, level)
    }
}


/// Text with a background and a foreground colour.
#[derive(Debug)]
pub struct TermPrint {
    pub background: GColor,
    pub fore: GColor,
    pub text: String,
}

impl Clone for TermPrint {
    fn clone(&self) -> (r: Self)
        ensures
            r == *self,
    {
        TermPrint { background: self.background, fore: self.fore, text: self.text.clone() }
    }
}

/// The escape sequence that selects colour `c` on `layer` ("48" for the
/// background, "38" for the foreground); empty for `Default` and `ResetColor`.
pub open spec fn color_escape(c: GColor, layer: Seq<char>) -> Seq<char> {
    if c == GColor::Default || gcolor_rgb(c).res {
        Seq::empty()
    } else {
        let v = gcolor_rgb(c);
        "\x1b["@ + layer + ";2;"@ + decimal(v.r as nat) + ";"@ + decimal(v.g as nat) + ";"@
            + decimal(v.b as nat) + "m"@
    }
}

/// What printing a `TermPrint` writes to the terminal: the background
/// escape, the foreground escape, then the text.
pub open spec fn rendered(t: TermPrint) -> Seq<char> {
    color_escape(t.background, "48"@) + color_escape(t.fore, "38"@) + t.text@
}

/// Appends the escape sequence for colour `c` on `layer`.
fn push_color_escape(s: &mut String, c: GColor, layer: &str)
    ensures
        final(s)@ == old(s)@ + color_escape(c, layer@),
{
    if c == GColor::Default {
        return;
    }
    let v = RGB::from_gcolor(c);
    if v.res {
        return;
    }
    proof {
        reveal_strlit("\x1b[");
        reveal_strlit(";2;");
        reveal_strlit(";");
        reveal_strlit("m");
    }
    s.append("\x1b[");
    s.append(layer);
    s.append(";2;");
    push_decimal(s, v.r as u128);
    s.append(";");
    push_decimal(s, v.g as u128);
    s.append(";");
    push_decimal(s, v.b as u128);
    s.append("m");
    assert(final(s)@ =~= old(s)@ + color_escape(c, layer@));
}

impl TermPrint {
    /// Text `text` on `background` in `fore`.
    pub fn new(text: &str, background: GColor, fore: GColor) -> (r: Self)
        ensures
            r.text@ == text@,
            r.background == background,
            r.fore == fore,
    {
        TermPrint { background, fore, text: text.to_owned() }
    }

    /// The text alone, without colours.
    pub fn as_plain(&self) -> (r: String)
        ensures
            r@ == self.text@,
    {
        self.text.clone()
    }

    /// The characters that printing this value writes: colour escapes
    /// (24-bit, one per colour that is neither `Default` nor `ResetColor`)
    /// followed by the text.
    pub fn render(&self) -> (r: String)
        ensures
            r@ == rendered(*self),
    {
        let mut s = String::new();
        proof {
            reveal_strlit("48");
            reveal_strlit("38");
        }
        push_color_escape(&mut s, self.background, "48");
        push_color_escape(&mut s, self.fore, "38");
        s.append(self.text.as_str());
        assert(s@ =~= rendered(*self));
        s
    }
}

impl<'a> From<&'a str> for TermPrint {
    fn from(value: &'a str) -> (r: Self)
        ensures
            r.text@ == value@,
            r.background == GColor::Default,
            r.fore == GColor::Default,
    {
        TermPrint::new(value, GColor::Default, GColor::Default)
    }
}

impl<'a> FromSpecImpl<&'a str> for TermPrint {
    open spec fn obeys_from_spec() -> bool {
        false
    }

    open spec fn from_spec(v: &'a str) -> TermPrint {
        arbitrary()
    }
}

impl<'a> From<(&'a str, RGB)> for TermPrint {
    fn from(value: (&'a str, RGB)) -> (r: Self)
        ensures
            r.text@ == value.0@,
            r.background == rgb_gcolor(value.1),
            r.fore == GColor::Default,
    {
        TermPrint::new(value.0, GColor::from(value.1), GColor::Default)
    }
}

impl<'a> FromSpecImpl<(&'a str, RGB)> for TermPrint {
    open spec fn obeys_from_spec() -> bool {
        false
    }

    open spec fn from_spec(v: (&'a str, RGB)) -> TermPrint {
        arbitrary()
    }
}

impl<'a> From<(&'a str, (), RGB)> for TermPrint {
    fn from(value: (&'a str, (), RGB)) -> (r: Self)
        ensures
            r.text@ == value.0@,
            r.background == GColor::Default,
            r.fore == rgb_gcolor(value.2),
    {
        TermPrint::new(value.0, GColor::Default, GColor::from(value.2))
    }
}

impl<'a> FromSpecImpl<(&'a str, (), RGB)> for TermPrint {
    open spec fn obeys_from_spec() -> bool {
        false
    }

    open spec fn from_spec(v: (&'a str, (), RGB)) -> TermPrint {
        arbitrary()
    }
}

impl<'a> From<(&'a str, RGB, RGB)> for TermPrint {
    fn from(value: (&'a str, RGB, RGB)) -> (r: Self)
        ensures
            r.text@ == value.0@,
            r.background == rgb_gcolor(value.1),
            r.fore == rgb_gcolor(value.2),
    {
        TermPrint::new(value.0, GColor::from(value.1), GColor::from(value.2))
    }
}

impl<'a> FromSpecImpl<(&'a str, RGB, RGB)> for TermPrint {
    open spec fn obeys_from_spec() -> bool {
        false
    }

    open spec fn from_spec(v: (&'a str, RGB, RGB)) -> TermPrint {
        arbitrary()
    }
}

impl<'a> From<(&'a str, GColor)> for TermPrint {
    fn from(value: (&'a str, GColor)) -> (r: Self)
        ensures
            r.text@ == value.0@,
            r.background == value.1,
            r.fore == GColor::Default,
    {
        TermPrint::new(value.0, value.1, GColor::Default)
    }
}

impl<'a> FromSpecImpl<(&'a str, GColor)> for TermPrint {
    open spec fn obeys_from_spec() -> bool {
        false
    }

    open spec fn from_spec(v: (&'a str, GColor)) -> TermPrint {
        arbitrary()
    }
}

impl<'a> From<(&'a str, (), GColor)> for TermPrint {
    fn from(value: (&'a str, (), GColor)) -> (r: Self)
        ensures
            r.text@ == value.0@,
            r.background == GColor::Default,
            r.fore == value.2,
    {
        TermPrint::new(value.0, GColor::Default, value.2)
    }
}

impl<'a> FromSpecImpl<(&'a str, (), GColor)> for TermPrint {
    open spec fn obeys_from_spec() -> bool {
        false
    }

    open spec fn from_spec(v: (&'a str, (), GColor)) -> TermPrint {
        arbitrary()
    }
}

impl<'a> From<(&'a str, GColor, GColor)> for TermPrint {
    fn from(value: (&'a str, GColor, GColor)) -> (r: Self)
        ensures
            r.text@ == value.0@,
            r.background == value.1,
            r.fore == value.2,
    {
        TermPrint::new(value.0, value.1, value.2)
    }
}

impl<'a> FromSpecImpl<(&'a str, GColor, GColor)> for TermPrint {
    open spec fn obeys_from_spec() -> bool {
        false
    }

    open spec fn from_spec(v: (&'a str, GColor, GColor)) -> TermPrint {
        arbitrary()
    }
}

impl From<String> for TermPrint {
    fn from(value: String) -> (r: Self) {
        TermPrint { background: GColor::Default, fore: GColor::Default, text: value }
    }
}

impl FromSpecImpl<String> for TermPrint {
    open spec fn obeys_from_spec() -> bool {
        true
    }

    open spec fn from_spec(v: String) -> TermPrint {
        TermPrint { background: GColor::Default, fore: GColor::Default, text: v }
    }
}

impl From<(String, GColor)> for TermPrint {
    fn from(value: (String, GColor)) -> (r: Self) {
        TermPrint { background: value.1, fore: GColor::Default, text: value.0 }
    }
}

impl FromSpecImpl<(String, GColor)> for TermPrint {
    open spec fn obeys_from_spec() -> bool {
        true
    }

    open spec fn from_spec(v: (String, GColor)) -> TermPrint {
        TermPrint { background: v.1, fore: GColor::Default, text: v.0 }
    }
}

impl From<(String, (), GColor)> for TermPrint {
    fn from(value: (String, (), GColor)) -> (r: Self) {
        TermPrint { background: GColor::Default, fore: value.2, text: value.0 }
    }
}

impl FromSpecImpl<(String, (), GColor)> for TermPrint {
    open spec fn obeys_from_spec() -> bool {
        true
    }

    open spec fn from_spec(v: (String, (), GColor)) -> TermPrint {
        TermPrint { background: GColor::Default, fore: v.2, text: v.0 }
    }
}

impl From<(String, GColor, GColor)> for TermPrint {
    fn from(value: (String, GColor, GColor)) -> (r: Self) {
        TermPrint { background: value.1, fore: value.2, text: value.0 }
    }
}

impl FromSpecImpl<(String, GColor, GColor)> for TermPrint {
    open spec fn obeys_from_spec() -> bool {
        true
    }

    open spec fn from_spec(v: (String, GColor, GColor)) -> TermPrint {
        TermPrint { background: v.1, fore: v.2, text: v.0 }
    }
}


/// A shape a texture is made of; positions are relative to the object
/// that owns the texture.
#[derive(Debug, Clone)]
pub enum PrintTypes {
    /// A straight line from `start` to `end`.
    Line { start: Vec2, end: Vec2, char: TermPrint },
    /// Text at `pos`.
    String { pos: Vec2, char: TermPrint },
    /// A filled rectangle.
    Square { pos: AABB, char: TermPrint },
}

impl Default for PrintTypes {
    fn default() -> (r: Self)
        ensures
            r matches PrintTypes::String { pos, char } && pos == (Vec2 { x: 0, y: 0 })
                && char.text@ == " "@ && char.background == GColor::Default
                && char.fore == GColor::Default,
    {
        PrintTypes::String { pos: Vec2 { x: 0, y: 0 }, char: TermPrint::new(" ", GColor::Default, GColor::Default) }
    }
}

/// Moving the cursor to cell `(x, y)`, each coordinate truncated to 16 bits.
pub open spec fn cell(x: int, y: int) -> CommandView {
    move_to(x as u16, y as u16)
}

/// Queuing `t` on a screen with colours `bg`.
pub open spec fn print_term(bg: (GColor, GColor, char), t: TermPrint) -> CommandView {
    print_in(bg, t.background, t.fore, t.text@)
}

/// `n` spaces.
pub open spec fn spaces(n: nat) -> Seq<char> {
    repeat_seq(" "@, n)
}

/// Queuing `n` spaces in the screen's colours.
pub open spec fn blank(bg: (GColor, GColor, char), n: nat) -> CommandView {
    print_in(bg, GColor::Default, GColor::Default, spaces(n))
}

/// What drawing the text `ch` at `pos` queues.
pub open spec fn str_print_cmds(bg: (GColor, GColor, char), pos: Vec2, ch: TermPrint) -> Seq<CommandView> {
    seq![cell(pos.x as int, pos.y as int), print_term(bg, ch)]
}

/// What erasing the text `ch` drawn at `prev` queues: as many spaces as it
/// has characters.
pub open spec fn str_clear_cmds(bg: (GColor, GColor, char), prev: Vec2, ch: TermPrint) -> Seq<CommandView> {
    seq![cell(prev.x as int, prev.y as int), blank(bg, ch.text@.len())]
}

/// The cells of the Bresenham walk from `start` to `end`, each followed by
/// `text`.
pub open spec fn bres_cmds(start: Vec2, end: Vec2, text: CommandView) -> Seq<CommandView> {
    concat_cmds(
        bres_steps(start.x as int, start.y as int, end.x as int, end.y as int) + 1,
        |k: int| {
            let s = bres_state(start.x as int, start.y as int, end.x as int, end.y as int, k as nat);
            seq![cell(s.x, s.y), text]
        },
    )
}

/// Whether the walk from `start` to `end` stays inside `i32` arithmetic.
pub open spec fn bres_ok(start: Vec2, end: Vec2) -> bool {
    abs(end.x - start.x) + abs(end.y - start.y) <= i32::MAX
}

/// Whether drawing a line from `start` to `end` stays inside `i32`
/// arithmetic (the conditions depend on the kind of line).
pub open spec fn line_ok(start: Vec2, end: Vec2) -> bool {
    if start.x == end.x {
        max_i32(start.y, end.y) < i32::MAX
    } else if start.y == end.y {
        abs(end.x - start.x) <= i32::MAX
    } else {
        &&& abs(end.x - start.x) <= i32::MAX
        &&& abs(end.y - start.y) <= i32::MAX
        &&& (abs(start.x - end.x) == abs(start.y - end.y) ==> max_i32(start.x, end.x) < i32::MAX)
        &&& (abs(start.x - end.x) != abs(start.y - end.y) ==> bres_ok(start, end))
    }
}

/// What drawing a line queues. A vertical line is drawn cell by cell
/// downwards; a horizontal one as one run of `|dx|` copies of the text in
/// its own colours; a 45-degree one cell by cell from its left end;
/// any other by a Bresenham walk.
pub open spec fn line_cmds(bg: (GColor, GColor, char), start: Vec2, end: Vec2, ch: TermPrint) -> Seq<CommandView> {
    if start.x == end.x {
        let lo = min_i32(start.y, end.y);
        let hi = max_i32(start.y, end.y);
        seq![cell(start.x as int, lo as int)] + repeat_seq(
            seq![
                reset_in(bg),
                print_term(bg, ch),
                CommandView::Cursor(CursorMoveTo::Down(1)),
                CommandView::Cursor(CursorMoveTo::Left(ch.text@.len() as u16)),
            ],
            (hi - lo + 1) as nat,
        )
    } else if start.y == end.y {
        seq![
            cell(min_i32(start.x, end.x) as int, start.y as int),
            print_in(bg, ch.background, ch.fore, repeat_seq(ch.text@, abs(end.x - start.x) as nat)),
        ]
    } else if abs(start.x - end.x) == abs(start.y - end.y) {
        let a = if start.x < end.x { start } else { end };
        let z = if start.x < end.x { end } else { start };
        let dir = if a.y > z.y { CursorMoveTo::Up(1) } else { CursorMoveTo::Down(1) };
        seq![cell(a.x as int, a.y as int)] + repeat_seq(
            seq![print_term(bg, ch), CommandView::Cursor(dir)],
            (z.x - a.x + 1) as nat,
        )
    } else {
        bres_cmds(start, end, print_term(bg, ch))
    }
}

/// Erasing a horizontal line wipes what drawing it at its old place wrote.
/// The line `start`..`end` lay at `prev`..`eo` before it moved (`eo` is
/// `end` moved back by `start - prev`). Drawing it there moves to the
/// leftmost cell and writes `|dx|` copies of its text; erasing it moves to
/// the same cell and writes `|dx|` spaces, which with a one-character text
/// are as many cells as were drawn.
pub proof fn lemma_horizontal_clear_covers_draw(
    bg: (GColor, GColor, char),
    prev: Vec2,
    start: Vec2,
    end: Vec2,
    ch: TermPrint,
)
    requires
        start.y == end.y,
        start.x != end.x,
        start != prev,
        can_sub(start, prev),
        can_sub(end, vec_sub(start, prev)),
    ensures
        ({
            let eo = vec_sub(end, vec_sub(start, prev));
            let n = abs(end.x - start.x) as nat;
            &&& eo.y == prev.y
            &&& line_cmds(bg, prev, eo, ch) == seq![
                cell(min_i32(prev.x, eo.x) as int, prev.y as int),
                print_in(bg, ch.background, ch.fore, repeat_seq(ch.text@, n)),
            ]
            &&& line_clear_cmds(bg, prev, start, end, ch) == seq![
                cell(min_i32(prev.x, eo.x) as int, prev.y as int),
                blank(bg, n),
            ]
            &&& (ch.text@.len() == 1 ==> repeat_seq(ch.text@, n).len() == n)
        }),
{
    let n = abs(end.x - start.x) as nat;
    if ch.text@.len() == 1 {
        crate::text::lemma_repeat_single_len(ch.text@, n);
    }
}

/// Erasing a vertical line wipes what drawing it at its old place wrote,
/// when the line's old start is its upper end. The line `start`..`end` lay
/// at `prev`..`eo`; drawing it there starts at `prev` and, row by row going
/// down, writes the text; erasing it starts at the same cell and, for the
/// same number of rows, writes a space where the text was.
pub proof fn lemma_vertical_clear_covers_draw(
    bg: (GColor, GColor, char),
    prev: Vec2,
    start: Vec2,
    end: Vec2,
    ch: TermPrint,
)
    requires
        start.x == end.x,
        start != prev,
        can_sub(start, prev),
        can_sub(end, vec_sub(start, prev)),
        prev.y <= vec_sub(end, vec_sub(start, prev)).y,
    ensures
        ({
            let eo = vec_sub(end, vec_sub(start, prev));
            let rows = (eo.y - prev.y + 1) as nat;
            let left = CommandView::Cursor(CursorMoveTo::Left(ch.text@.len() as u16));
            let down = CommandView::Cursor(CursorMoveTo::Down(1));
            &&& eo.x == prev.x
            &&& line_cmds(bg, prev, eo, ch) == seq![cell(prev.x as int, prev.y as int)] + repeat_seq(
                seq![reset_in(bg), print_term(bg, ch), down, left],
                rows,
            )
            &&& line_clear_cmds(bg, prev, start, end, ch) == seq![cell(prev.x as int, prev.y as int)] + repeat_seq(
                seq![blank(bg, 1), down, left],
                rows,
            )
        }),
{
}

/// Whether erasing a line stays inside `i32` arithmetic.
pub open spec fn line_clear_ok(prev: Vec2, start: Vec2, end: Vec2) -> bool {
    start == prev || {
        &&& can_sub(start, prev)
        &&& can_sub(end, vec_sub(start, prev))
        &&& {
            let eo = vec_sub(end, vec_sub(start, prev));
            if prev.x == eo.x {
                max_i32(prev.y, eo.y) < i32::MAX
            } else if prev.y == eo.y {
                abs(eo.x - prev.x) <= i32::MAX
            } else {
                bres_ok(start, end)
            }
        }
    }
}

/// What erasing a line queues. Nothing when the line starts where the
/// object was; otherwise the line is shifted so that it starts at `prev` and
/// blanked like it was drawn, except that a slanted line is blanked along
/// `start`..`end` itself.
pub open spec fn line_clear_cmds(bg: (GColor, GColor, char), prev: Vec2, start: Vec2, end: Vec2, ch: TermPrint) -> Seq<CommandView> {
    if start == prev {
        Seq::empty()
    } else {
        let eo = vec_sub(end, vec_sub(start, prev));
        if prev.x == eo.x {
            let lo = min_i32(prev.y, eo.y);
            let hi = max_i32(prev.y, eo.y);
            seq![cell(prev.x as int, prev.y as int)] + repeat_seq(
                seq![
                    blank(bg, 1),
                    CommandView::Cursor(CursorMoveTo::Down(1)),
                    CommandView::Cursor(CursorMoveTo::Left(ch.text@.len() as u16)),
                ],
                (hi - lo + 1) as nat,
            )
        } else if prev.y == eo.y {
            seq![
                cell(min_i32(prev.x, eo.x) as int, prev.y as int),
                blank(bg, abs(eo.x - prev.x) as nat),
            ]
        } else {
            bres_cmds(start, end, blank(bg, 1))
        }
    }
}

/// Whether drawing the rectangle stays inside `i32` arithmetic and inside
/// what `str::repeat` accepts.
pub open spec fn square_ok(a: AABB, ch: TermPrint) -> bool {
    &&& fits_i32(a.cor2.y - a.cor1.y)
    &&& fits_i32(a.cor2.x - a.cor1.x)
    &&& a.cor2.y - a.cor1.y < i32::MAX
    &&& (a.cor2.x - a.cor1.x >= 0 || rendered(ch).len() == 0)
}

/// Number of rows a rectangle is drawn with.
pub open spec fn square_lines(a: AABB) -> nat {
    if a.cor2.y - a.cor1.y + 1 > 0 { (a.cor2.y - a.cor1.y + 1) as nat } else { 0 }
}

/// Width of a rectangle's rows, in copies of its text.
pub open spec fn square_width(a: AABB) -> nat {
    if a.cor2.x - a.cor1.x > 0 { (a.cor2.x - a.cor1.x) as nat } else { 0 }
}

/// What drawing a rectangle queues: the printed form of `ch` repeated
/// `width` times, once per row, each row followed by a move to the
/// rectangle's left edge on that row and one line down.
pub open spec fn square_rows(bg: (GColor, GColor, char), a: AABB, row: CommandView) -> Seq<CommandView> {
    seq![cell(a.cor1.x as int, a.cor1.y as int)] + concat_cmds(
        square_lines(a),
        |r: int| seq![row, cell(a.cor1.x as int, a.cor1.y + r), CommandView::Cursor(CursorMoveTo::Down(1))],
    )
}

/// What drawing a filled rectangle queues.
pub open spec fn square_cmds(bg: (GColor, GColor, char), a: AABB, ch: TermPrint) -> Seq<CommandView> {
    square_rows(bg, a, print_in(bg, ch.background, ch.fore, repeat_seq(rendered(ch), square_width(a))))
}

/// What erasing a filled rectangle queues.
pub open spec fn square_clear_cmds(bg: (GColor, GColor, char), a: AABB) -> Seq<CommandView> {
    square_rows(bg, a, blank(bg, square_width(a)))
}

/// Whether erasing the rectangle stays inside `i32` arithmetic and inside
/// what `str::repeat` accepts.
pub open spec fn square_clear_ok(a: AABB) -> bool {
    &&& fits_i32(a.cor2.y - a.cor1.y)
    &&& fits_i32(a.cor2.x - a.cor1.x)
    &&& a.cor2.y - a.cor1.y < i32::MAX
    &&& a.cor2.x - a.cor1.x >= 0
}

/// Whether drawing `s` for an object at `pos` stays inside `i32` arithmetic
/// and inside what `str::repeat` accepts.
pub open spec fn shape_print_ok(s: PrintTypes, pos: Vec2) -> bool {
    match s {
        PrintTypes::Line { start, end, char } =>
            can_add(start, pos) && can_add(end, pos) && line_ok(vec_add(start, pos), vec_add(end, pos)),
        PrintTypes::String { pos: p, char } => can_add(p, pos),
        PrintTypes::Square { pos: a, char } => can_translate(a, pos) && square_ok(translated(a, pos), char),
    }
}

/// What drawing `s` for an object at `pos` queues.
pub open spec fn shape_print_cmds(bg: (GColor, GColor, char), s: PrintTypes, pos: Vec2) -> Seq<CommandView> {
    match s {
        PrintTypes::Line { start, end, char } => line_cmds(bg, vec_add(start, pos), vec_add(end, pos), char),
        PrintTypes::String { pos: p, char } => str_print_cmds(bg, vec_add(p, pos), char),
        PrintTypes::Square { pos: a, char } => square_cmds(bg, translated(a, pos), char),
    }
}

/// Whether erasing `s`, drawn for an object now at `pos` that was at `prev`,
/// stays inside `i32` arithmetic and inside what `str::repeat` accepts.
pub open spec fn shape_clear_ok(s: PrintTypes, pos: Vec2, prev: Vec2) -> bool {
    match s {
        PrintTypes::Line { start, end, char } =>
            can_add(start, pos) && can_add(end, pos) && line_clear_ok(prev, vec_add(start, pos), vec_add(end, pos)),
        PrintTypes::String { pos: p, char } => can_add(prev, p),
        PrintTypes::Square { pos: a, char } => can_translate(a, prev) && square_clear_ok(translated(a, prev)),
    }
}

/// What erasing `s` queues: text and rectangles are blanked where the
/// object was (`prev`); lines as `line_clear_cmds` says.
pub open spec fn shape_clear_cmds(bg: (GColor, GColor, char), s: PrintTypes, pos: Vec2, prev: Vec2) -> Seq<CommandView> {
    match s {
        PrintTypes::Line { start, end, char } => line_clear_cmds(bg, prev, vec_add(start, pos), vec_add(end, pos), char),
        PrintTypes::String { pos: p, char } => str_clear_cmds(bg, vec_add(prev, p), char),
        PrintTypes::Square { pos: a, char } => square_clear_cmds(bg, translated(a, prev)),
    }
}

/// Whether `v` fits in an `i32`.
fn fits(v: i64) -> (r: bool)
    ensures
        r == fits_i32(v as int),
{
    -2147483648i64 <= v && v <= 2147483647i64
}

/// Whether `a + b` stays inside `i32`.
fn adds(a: Vec2, b: Vec2) -> (r: bool)
    ensures
        r == can_add(a, b),
{
    fits(a.x as i64 + b.x as i64) && fits(a.y as i64 + b.y as i64)
}

/// Whether `a - b` stays inside `i32`.
fn subs(a: Vec2, b: Vec2) -> (r: bool)
    ensures
        r == can_sub(a, b),
{
    fits(a.x as i64 - b.x as i64) && fits(a.y as i64 - b.y as i64)
}

/// The distance between two `i32` values.
fn dist(a: i32, b: i32) -> (r: i64)
    ensures
        r == abs(b - a),
{
    let d = b as i64 - a as i64;
    if d < 0 { -d } else { d }
}

/// Whether the Bresenham walk from `start` to `end` stays inside `i32`.
fn bres_fits(start: Vec2, end: Vec2) -> (r: bool)
    ensures
        r == bres_ok(start, end),
{
    dist(start.x, end.x) + dist(start.y, end.y) <= 2147483647i64
}

/// Whether drawing a line from `start` to `end` stays inside `i32`.
fn line_fits(start: Vec2, end: Vec2) -> (r: bool)
    ensures
        r == line_ok(start, end),
{
    if start.x == end.x {
        let hi = if start.y <= end.y { end.y } else { start.y };
        hi < 2147483647i32
    } else if start.y == end.y {
        dist(start.x, end.x) <= 2147483647i64
    } else {
        let dx = dist(start.x, end.x);
        let dy = dist(start.y, end.y);
        let hi = if start.x <= end.x { end.x } else { start.x };
        dx <= 2147483647i64 && dy <= 2147483647i64
            && (dx != dy || hi < 2147483647i32)
            && (dx == dy || bres_fits(start, end))
    }
}

/// Whether erasing a line stays inside `i32`.
fn line_clear_fits(prev: Vec2, start: Vec2, end: Vec2) -> (r: bool)
    ensures
        r == line_clear_ok(prev, start, end),
{
    if start == prev {
        return true;
    }
    if !subs(start, prev) {
        return false;
    }
    let shift = start - prev;
    if !subs(end, shift) {
        return false;
    }
    let eo = end - shift;
    if prev.x == eo.x {
        let hi = if prev.y <= eo.y { eo.y } else { prev.y };
        hi < 2147483647i32
    } else if prev.y == eo.y {
        dist(prev.x, eo.x) <= 2147483647i64
    } else {
        bres_fits(start, end)
    }
}

/// Whether drawing rectangle `a` with `ch` stays inside `i32` and inside
/// what `str::repeat` accepts.
fn square_fits(a: AABB, ch: &TermPrint) -> (r: bool)
    ensures
        r == square_ok(a, *ch),
{
    let h = a.cor2.y as i64 - a.cor1.y as i64;
    let w = a.cor2.x as i64 - a.cor1.x as i64;
    fits(h) && fits(w) && h < 2147483647i64 && (w >= 0 || char_count(ch.render().as_str()) == 0)
}

/// Whether erasing rectangle `a` stays inside `i32` and inside what
/// `str::repeat` accepts.
fn square_clear_fits(a: AABB) -> (r: bool)
    ensures
        r == square_clear_ok(a),
{
    let h = a.cor2.y as i64 - a.cor1.y as i64;
    let w = a.cor2.x as i64 - a.cor1.x as i64;
    fits(h) && fits(w) && h < 2147483647i64 && w >= 0
}

impl PrintTypes {
    /// Whether this shape can be drawn for an object at `pos` (see
    /// `shape_print_ok`).
    pub fn can_print(&self, pos: Vec2) -> (r: bool)
        ensures
            r == shape_print_ok(*self, pos),
    {
        match self {
            PrintTypes::Line { start, end, char } => {
                adds(*start, pos) && adds(*end, pos) && line_fits(*start + pos, *end + pos)
            },
            PrintTypes::String { pos: p, char } => adds(*p, pos),
            PrintTypes::Square { pos: a, char } => {
                adds(a.cor1, pos) && adds(a.cor2, pos) && square_fits(*a + pos, char)
            },
        }
    }

    /// Whether this shape can be erased for an object moved from `prev` to
    /// `pos` (see `shape_clear_ok`).
    pub fn can_clear(&self, pos: Vec2, prev: Vec2) -> (r: bool)
        ensures
            r == shape_clear_ok(*self, pos, prev),
    {
        match self {
            PrintTypes::Line { start, end, char } => {
                adds(*start, pos) && adds(*end, pos) && line_clear_fits(prev, *start + pos, *end + pos)
            },
            PrintTypes::String { pos: p, char } => adds(prev, *p),
            PrintTypes::Square { pos: a, char } => {
                adds(a.cor1, prev) && adds(a.cor2, prev) && square_clear_fits(*a + prev)
            },
        }
    }
}

/// Adding one more block to a concatenation.
pub proof fn lemma_concat_cmds_step(n: nat, f: spec_fn(int) -> Seq<CommandView>)
    ensures
        concat_cmds(n + 1, f) == concat_cmds(n, f) + f(n as int),
{
}

proof fn lemma_one_space()
    ensures
        spaces(1) == " "@,
{
    assert(repeat_seq(" "@, 0) == Seq::<char>::empty());
    assert(spaces(1) =~= " "@);
}

proof fn lemma_repeat_step<A>(s: Seq<A>, n: nat)
    ensures
        repeat_seq(s, n + 1) == repeat_seq(s, n) + s,
{
}

/// Queues the cells of the Bresenham walk from `start` to `end`, each
/// followed by `ch`.
fn bresenham_line_i32(out: &mut Screen, start: Vec2, end: Vec2, ch: &TermPrint)
    requires
        bres_ok(start, end),
    ensures
        final(out).queued() == old(out).queued() + bres_cmds(start, end, print_term(old(out).bg, *ch)),
        final(out).same_settings(old(out)),
{
    let ghost x0 = start.x as int;
    let ghost y0 = start.y as int;
    let ghost x1 = end.x as int;
    let ghost y1 = end.y as int;
    let ghost n = bres_steps(x0, y0, x1, y1);
    let ghost text = print_term(old(out).bg, *ch);
    let ghost f = |k: int| {
        let s = bres_state(x0, y0, x1, y1, k as nat);
        seq![cell(s.x, s.y), text]
    };
    let dx: i32 = if end.x >= start.x { end.x - start.x } else { start.x - end.x };
    let dy: i32 = if end.y >= start.y { end.y - start.y } else { start.y - end.y };
    let sx: i32 = if start.x < end.x { 1 } else { -1 };
    let sy: i32 = if start.y < end.y { 1 } else { -1 };
    let mut x = start.x;
    let mut y = start.y;
    let mut err: i32 = if dx > dy { dx / 2 } else { -(dy / 2) };
    let ghost mut k: nat = 0;
    proof {
        lemma_bres_walk(x0, y0, x1, y1, 0);
    }
    loop
        invariant_except_break
            out.queued() == old(out).queued() + concat_cmds(k, f),
        invariant
            out.same_settings(old(out)),
            x0 == start.x,
            y0 == start.y,
            x1 == end.x,
            y1 == end.y,
            k <= n,
            dx == abs(x1 - x0),
            dy == abs(y1 - y0),
            sx == step_toward(x0, x1),
            sy == step_toward(y0, y1),
            dx + dy <= i32::MAX,
            n == bres_steps(x0, y0, x1, y1),
            text == print_term(old(out).bg, *ch),
            f == (|k: int| {
                let s = bres_state(x0, y0, x1, y1, k as nat);
                seq![cell(s.x, s.y), text]
            }),
            bres_state(x0, y0, x1, y1, k) == (BresState { x: x as int, y: y as int, err: err as int }),
        ensures
            out.same_settings(old(out)),
            out.queued() == old(out).queued() + concat_cmds(n + 1, f),
        decreases n - k,
    {
        out.cursor_move(CursorMoveTo::Pos((x as u16, y as u16)));
        out.queue(ch);
        proof {
            lemma_concat_cmds_step(k, f);
            lemma_bres_walk(x0, y0, x1, y1, k);
        }
        assert(out.queued() =~= old(out).queued() + concat_cmds(k + 1, f));
        if x == end.x && y == end.y {
            assert(k == n);
            break;
        }
        assert(k != n);
        let ghost s1 = bres_state(x0, y0, x1, y1, k + 1);
        proof {
            lemma_bres_walk(x0, y0, x1, y1, k + 1);
            if dx > dy {
                assert(x_major_at(x0, y0, x1, y1, k + 1, s1));
            } else {
                assert(y_major_at(x0, y0, x1, y1, k + 1, s1));
            }
            lemma_walk_in_range(x0, y0, x1, y1, k + 1);
            assert(s1 == bres_step(bres_state(x0, y0, x1, y1, k), x0, y0, x1, y1));
        }
        let e2 = err;
        if e2 > -dx {
            err = err - dy;
            x = x + sx;
        }
        if e2 < dy {
            err = err + dx;
            y = y + sy;
        }
        proof {
            k = k + 1;
        }
    }
}


/// Queues `block` `n` times in a row on `out`; `push_block` queues one copy.
fn vertical_run(out: &mut Screen, ch: &TermPrint, n: u64, with_reset: bool, text_blank: bool)
    requires
        text_blank ==> !with_reset,
    ensures
        final(out).queued() == old(out).queued() + repeat_seq(
            vertical_block(old(out).bg, *ch, with_reset, text_blank),
            n as nat,
        ),
        final(out).same_settings(old(out)),
{
    let shift: usize = char_count(ch.text.as_str());
    let ghost block = vertical_block(old(out).bg, *ch, with_reset, text_blank);
    let blank_text = TermPrint::new(" ", GColor::Default, GColor::Default);
    proof { reveal_strlit(" "); }
    proof { lemma_one_space(); }
    let mut i: u64 = 0;
    while i < n
        invariant
            i <= n,
            text_blank ==> !with_reset,
            out.same_settings(old(out)),
            shift == ch.text@.len(),
            blank_text.text@ == " "@,
            blank_text.background == GColor::Default,
            blank_text.fore == GColor::Default,
            spaces(1) == " "@,
            block == vertical_block(old(out).bg, *ch, with_reset, text_blank),
            out.queued() == old(out).queued() + repeat_seq(block, i as nat),
        decreases n - i,
    {
        let ghost before = out.queued();
        let ghost bg = out.bg;
        let ghost first: Seq<CommandView>;
        if with_reset {
            out.reset_color();
            out.queue(ch);
            proof { first = seq![reset_in(bg), print_term(bg, *ch)]; }
        } else if text_blank {
            out.queue(&blank_text);
            proof { first = seq![blank(bg, 1)]; }
        } else {
            out.queue(ch);
            proof { first = seq![print_term(bg, *ch)]; }
        }
        assert(out.queued() =~= before + first);
        out.cursor_move(CursorMoveTo::Down(1));
        out.cursor_move(CursorMoveTo::Left(shift as u16));
        assert(block =~= first + seq![
            CommandView::Cursor(CursorMoveTo::Down(1)),
            CommandView::Cursor(CursorMoveTo::Left(ch.text@.len() as u16)),
        ]);
        proof {
            lemma_repeat_step(block, i as nat);
        }
        assert(out.queued() =~= before + block);
        i = i + 1;
    }
}

/// One step of a vertical line: optionally a colour reset, the text (or one
/// blank), one line down and back left by the text's width.
pub open spec fn vertical_block(bg: (GColor, GColor, char), ch: TermPrint, with_reset: bool, text_blank: bool) -> Seq<CommandView> {
    let moves = seq![
        CommandView::Cursor(CursorMoveTo::Down(1)),
        CommandView::Cursor(CursorMoveTo::Left(ch.text@.len() as u16)),
    ];
    if text_blank {
        seq![blank(bg, 1)] + moves
    } else if with_reset {
        seq![reset_in(bg), print_term(bg, ch)] + moves
    } else {
        seq![print_term(bg, ch)] + moves
    }
}

impl PrintTypes {
    /// Queues the commands that draw this shape with the owning object at
    /// `pos`.
    pub fn print(&self, out: &mut Screen, pos: Vec2)
        requires
            shape_print_ok(*self, pos),
        ensures
            final(out).queued() == old(out).queued() + shape_print_cmds(old(out).bg, *self, pos),
            final(out).same_settings(old(out)),
    {
        match self {
            PrintTypes::Line { start, end, char } => Self::line_print(out, *start + pos, *end + pos, char),
            PrintTypes::String { pos: p, char } => Self::str_print(out, *p + pos, char),
            PrintTypes::Square { pos: a, char } => Self::square_print(out, *a + pos, char),
        }
    }

    /// Queues the commands that erase this shape as it was drawn for an
    /// object that moved from `prev` to `pos`. Always `true`.
    pub fn clearself(&self, out: &mut Screen, pos: Vec2, prev: Vec2) -> (r: bool)
        requires
            shape_clear_ok(*self, pos, prev),
        ensures
            r,
            final(out).queued() == old(out).queued() + shape_clear_cmds(old(out).bg, *self, pos, prev),
            final(out).same_settings(old(out)),
    {
        match self {
            PrintTypes::Line { start, end, char } => {
                Self::line_clearself(out, prev, *start + pos, *end + pos, char);
            },
            PrintTypes::String { pos: p, char } => {
                Self::str_clearself(out, prev + *p, char);
            },
            PrintTypes::Square { pos: a, char } => {
                Self::square_clearself(out, *a + prev, char);
            },
        }
        true
    }

    fn str_print(out: &mut Screen, pos: Vec2, ch: &TermPrint)
        ensures
            final(out).queued() == old(out).queued() + str_print_cmds(old(out).bg, pos, *ch),
            final(out).same_settings(old(out)),
    {
        out.cursor_move(CursorMoveTo::Pos(pos.to_cell()));
        out.queue(ch);
        assert(out.queued() =~= old(out).queued() + str_print_cmds(old(out).bg, pos, *ch));
    }

    fn str_clearself(out: &mut Screen, prev: Vec2, ch: &TermPrint) -> (r: bool)
        ensures
            r,
            final(out).queued() == old(out).queued() + str_clear_cmds(old(out).bg, prev, *ch),
            final(out).same_settings(old(out)),
    {
        let len = char_count(ch.text.as_str());
        let text = repeat_str(" ", len);
        let newt = TermPrint::from(text);
        out.cursor_move(CursorMoveTo::Pos(prev.to_cell()));
        out.queue(&newt);
        assert(out.queued() =~= old(out).queued() + str_clear_cmds(old(out).bg, prev, *ch));
        true
    }

    fn line_print(out: &mut Screen, start: Vec2, end: Vec2, ch: &TermPrint)
        requires
            line_ok(start, end),
        ensures
            final(out).queued() == old(out).queued() + line_cmds(old(out).bg, start, end, *ch),
            final(out).same_settings(old(out)),
    {
        let ghost q0 = old(out).queued();
        if start.x == end.x {
            // vertical
            let (lo, hi) = if start.y < end.y { (start.y, end.y) } else { (end.y, start.y) };
            out.cursor_move(CursorMoveTo::Pos((start.x as u16, lo as u16)));
            let count: u64 = (hi as i64 - lo as i64 + 1) as u64;
            vertical_run(out, ch, count, true, false);
            assert(vertical_block(old(out).bg, *ch, true, false) =~= seq![
                old(out).reset_cmd(),
                print_term(old(out).bg, *ch),
                CommandView::Cursor(CursorMoveTo::Down(1)),
                CommandView::Cursor(CursorMoveTo::Left(ch.text@.len() as u16)),
            ]);
            assert(out.queued() =~= q0 + line_cmds(old(out).bg, start, end, *ch));
        } else if start.y == end.y {
            // horizontal
            let left = if start.x < end.x { start.x } else { end.x };
            out.cursor_move(CursorMoveTo::Pos((left as u16, start.y as u16)));
            let len: i32 = if end.x >= start.x { end.x - start.x } else { start.x - end.x };
            let s = repeat_str(ch.text.as_str(), len as usize);
            let new = TermPrint::from((s, ch.background, ch.fore));
            out.queue(&new);
            assert(out.queued() =~= q0 + line_cmds(old(out).bg, start, end, *ch));
        } else {
            let adx: i32 = if start.x >= end.x { start.x - end.x } else { end.x - start.x };
            let ady: i32 = if start.y >= end.y { start.y - end.y } else { end.y - start.y };
            if adx == ady {
                // 45 degrees
                let (a, z) = if start.x < end.x { (start, end) } else { (end, start) };
                out.cursor_move(CursorMoveTo::Pos((a.x as u16, a.y as u16)));
                let dir = if a.y > z.y { CursorMoveTo::Up(1) } else { CursorMoveTo::Down(1) };
                let ghost block = seq![print_term(old(out).bg, *ch), CommandView::Cursor(dir)];
                let count: u64 = (z.x as i64 - a.x as i64 + 1) as u64;
                let mut i: u64 = 0;
                while i < count
                    invariant
                        i <= count,
                        out.same_settings(old(out)),
                        block == seq![print_term(old(out).bg, *ch), CommandView::Cursor(dir)],
                        out.queued() == q0 + seq![cell(a.x as int, a.y as int)] + repeat_seq(block, i as nat),
                    decreases count - i,
                {
                    let ghost before = out.queued();
                    out.queue(ch);
                    out.cursor_move(dir);
                    proof {
                        lemma_repeat_step(block, i as nat);
                    }
                    assert(out.queued() =~= before + block);
                    i = i + 1;
                }
                assert(out.queued() =~= q0 + line_cmds(old(out).bg, start, end, *ch));
            } else {
                bresenham_line_i32(out, start, end, ch);
            }
        }
    }

    fn line_clearself(out: &mut Screen, prev: Vec2, start: Vec2, end: Vec2, ch: &TermPrint) -> (r: bool)
        requires
            line_clear_ok(prev, start, end),
        ensures
            r,
            final(out).queued() == old(out).queued() + line_clear_cmds(old(out).bg, prev, start, end, *ch),
            final(out).same_settings(old(out)),
    {
        let ghost q0 = old(out).queued();
        if start == prev {
            assert(out.queued() =~= q0 + line_clear_cmds(old(out).bg, prev, start, end, *ch));
            return true;
        }
        let end_old = end - (start - prev);
        proof { reveal_strlit(" "); }
        if prev.x == end_old.x {
            let (lo, hi) = if prev.y < end_old.y { (prev.y, end_old.y) } else { (end_old.y, prev.y) };
            out.cursor_move(CursorMoveTo::Pos(prev.to_cell()));
            let count: u64 = (hi as i64 - lo as i64 + 1) as u64;
            vertical_run(out, ch, count, false, true);
            assert(vertical_block(old(out).bg, *ch, false, true) =~= seq![
                blank(old(out).bg, 1),
                CommandView::Cursor(CursorMoveTo::Down(1)),
                CommandView::Cursor(CursorMoveTo::Left(ch.text@.len() as u16)),
            ]);
            assert(out.queued() =~= q0 + line_clear_cmds(old(out).bg, prev, start, end, *ch));
        } else if prev.y == end_old.y {
            let left = if prev.x < end_old.x { prev.x } else { end_old.x };
            out.cursor_move(CursorMoveTo::Pos((left as u16, prev.y as u16)));
            let len: i32 = if end_old.x >= prev.x { end_old.x - prev.x } else { prev.x - end_old.x };
            let s = repeat_str(" ", len as usize);
            let new = TermPrint::from(s);
            out.queue(&new);
            assert(out.queued() =~= q0 + line_clear_cmds(old(out).bg, prev, start, end, *ch));
        } else {
            let blank_text = TermPrint::new(" ", GColor::Default, GColor::Default);
            proof { lemma_one_space(); }
            bresenham_line_i32(out, start, end, &blank_text);
            assert(print_term(old(out).bg, blank_text) == blank(old(out).bg, 1));
        }
        true
    }

    fn square_run(out: &mut Screen, a: AABB, row: &TermPrint)
        requires
            a.cor2.y - a.cor1.y < i32::MAX,
            fits_i32(a.cor2.y - a.cor1.y),
        ensures
            final(out).queued() == old(out).queued() + square_rows(old(out).bg, a, print_term(old(out).bg, *row)),
            final(out).same_settings(old(out)),
    {
        let ghost q0 = old(out).queued();
        let ghost rowc = print_term(old(out).bg, *row);
        let ghost f = |r: int| seq![rowc, cell(a.cor1.x as int, a.cor1.y + r), CommandView::Cursor(CursorMoveTo::Down(1))];
        let lines: i32 = a.cor2.y - a.cor1.y;
        out.cursor_move(CursorMoveTo::Pos((a.cor1.x as u16, a.cor1.y as u16)));
        let mut r: i32 = 0;
        if lines >= 0 {
            while r <= lines
                invariant
                    0 <= r <= lines + 1,
                    lines == a.cor2.y - a.cor1.y,
                    lines < i32::MAX,
                    out.same_settings(old(out)),
                    rowc == print_term(old(out).bg, *row),
                    f == (|r: int| seq![rowc, cell(a.cor1.x as int, a.cor1.y + r), CommandView::Cursor(CursorMoveTo::Down(1))]),
                    out.queued() == q0 + seq![cell(a.cor1.x as int, a.cor1.y as int)] + concat_cmds(r as nat, f),
                decreases lines + 1 - r,
            {
                let ghost before = out.queued();
                out.queue(row);
                out.cursor_move(CursorMoveTo::Pos((a.cor1.x as u16, (a.cor1.y + r) as u16)));
                out.cursor_move(CursorMoveTo::Down(1));
                proof {
                    lemma_concat_cmds_step(r as nat, f);
                }
                assert(out.queued() =~= before + f(r as int));
                r = r + 1;
            }
        }
        assert(square_lines(a) == r as nat);
        assert(out.queued() =~= q0 + square_rows(old(out).bg, a, rowc));
    }

    fn square_print(out: &mut Screen, pos: AABB, ch: &TermPrint)
        requires
            square_ok(pos, *ch),
        ensures
            final(out).queued() == old(out).queued() + square_cmds(old(out).bg, pos, *ch),
            final(out).same_settings(old(out)),
    {
        let corners = pos.get_corners();
        let rows: i32 = corners.1.x - corners.0.x;
        let shown = ch.render();
        let width: usize = if rows > 0 { rows as usize } else { 0 };
        let row = repeat_str(shown.as_str(), width);
        let new = TermPrint::from((row, ch.background, ch.fore));
        Self::square_run(out, pos, &new);
    }

    fn square_clearself(out: &mut Screen, pos: AABB, _char: &TermPrint) -> (r: bool)
        requires
            square_clear_ok(pos),
        ensures
            r,
            final(out).queued() == old(out).queued() + square_clear_cmds(old(out).bg, pos),
            final(out).same_settings(old(out)),
    {
        let corners = pos.get_corners();
        let rows: i32 = corners.1.x - corners.0.x;
        let row = repeat_str(" ", rows as usize);
        let new = TermPrint::from(row);
        proof { reveal_strlit(" "); }
        Self::square_run(out, pos, &new);
        true
    }
}


/// A picture made of shapes, drawn relative to the position of the object
/// that owns it.
#[derive(Debug, Clone)]
pub struct GameTexture {
    pub(crate) textures: Vec<PrintTypes>,
}

impl Default for GameTexture {
    fn default() -> (r: Self)
        ensures
            r.shapes() == Seq::<PrintTypes>::empty(),
    {
        GameTexture { textures: Vec::new() }
    }
}

/// What drawing the shapes `ts` for an object at `pos` queues: each shape
/// followed by a colour reset.
pub open spec fn texture_print_cmds(bg: (GColor, GColor, char), ts: Seq<PrintTypes>, pos: Vec2) -> Seq<CommandView> {
    concat_cmds(ts.len(), |i: int| shape_print_cmds(bg, ts[i], pos) + seq![reset_in(bg)])
}

/// What erasing the shapes `ts` queues.
pub open spec fn texture_clear_cmds(bg: (GColor, GColor, char), ts: Seq<PrintTypes>, pos: Vec2, prev: Vec2) -> Seq<CommandView> {
    concat_cmds(ts.len(), |i: int| shape_clear_cmds(bg, ts[i], pos, prev))
}

impl GameTexture {
    /// The shapes, in drawing order.
    pub closed spec fn shapes(&self) -> Seq<PrintTypes> {
        self.textures@
    }

    /// Whether every shape can be drawn for an object at `pos`.
    pub open spec fn print_ok(&self, pos: Vec2) -> bool {
        forall|i: int| 0 <= i < self.shapes().len() ==> shape_print_ok(#[trigger] self.shapes()[i], pos)
    }

    /// Whether every shape can be erased for an object moved from `prev` to `pos`.
    pub open spec fn clear_ok(&self, pos: Vec2, prev: Vec2) -> bool {
        forall|i: int| 0 <= i < self.shapes().len() ==> shape_clear_ok(#[trigger] self.shapes()[i], pos, prev)
    }

    pub fn new(t: Vec<PrintTypes>) -> (r: Self)
        ensures
            r.shapes() == t@,
    {
        GameTexture { textures: t }
    }

    /// Whether every shape can be drawn for an object at `pos`.
    pub fn can_print(&self, pos: Vec2) -> (r: bool)
        ensures
            r == self.print_ok(pos),
    {
        let mut i: usize = 0;
        while i < self.textures.len()
            invariant
                i <= self.textures@.len(),
                forall|j: int| 0 <= j < i ==> shape_print_ok(#[trigger] self.textures@[j], pos),
            decreases self.textures@.len() - i,
        {
            if !self.textures[i].can_print(pos) {
                assert(!shape_print_ok(self.shapes()[i as int], pos));
                return false;
            }
            i = i + 1;
        }
        true
    }

    /// Whether every shape can be erased for an object moved from `prev` to
    /// `pos`.
    pub fn can_clear(&self, pos: Vec2, prev: Vec2) -> (r: bool)
        ensures
            r == self.clear_ok(pos, prev),
    {
        let mut i: usize = 0;
        while i < self.textures.len()
            invariant
                i <= self.textures@.len(),
                forall|j: int| 0 <= j < i ==> shape_clear_ok(#[trigger] self.textures@[j], pos, prev),
            decreases self.textures@.len() - i,
        {
            if !self.textures[i].can_clear(pos, prev) {
                assert(!shape_clear_ok(self.shapes()[i as int], pos, prev));
                return false;
            }
            i = i + 1;
        }
        true
    }

    /// Queues every shape, each followed by a colour reset.
    pub fn print(&self, out: &mut Screen, pos: Vec2)
        requires
            self.print_ok(pos),
        ensures
            final(out).queued() == old(out).queued() + texture_print_cmds(old(out).bg, self.shapes(), pos),
            final(out).same_settings(old(out)),
    {
        let ghost q0 = old(out).queued();
        let ghost scr = *old(out);
        let ghost bg = scr.bg;
        let ghost ts = self.shapes();
        let ghost f = |i: int| shape_print_cmds(bg, ts[i], pos) + seq![reset_in(bg)];
        let mut i: usize = 0;
        while i < self.textures.len()
            invariant
                i <= self.textures@.len(),
                ts == self.textures@,
                self.print_ok(pos),
                out.same_settings(&scr),
                bg == scr.bg,
                f == (|i: int| shape_print_cmds(bg, ts[i], pos) + seq![reset_in(bg)]),
                out.queued() == q0 + concat_cmds(i as nat, f),
            decreases self.textures@.len() - i,
        {
            let ghost before = out.queued();
            assert(shape_print_ok(self.shapes()[i as int], pos));
            self.textures[i].print(out, pos);
            out.reset_color();
            proof {
                lemma_concat_cmds_step(i as nat, f);
            }
            assert(out.queued() =~= before + f(i as int));
            i = i + 1;
        }
    }

    /// Queues the erasure of every shape for an object moved from `prev` to
    /// `pos`. Always `true`.
    pub fn clearself(&self, out: &mut Screen, pos: Vec2, prev: Vec2) -> (r: bool)
        requires
            self.clear_ok(pos, prev),
        ensures
            r,
            final(out).queued() == old(out).queued() + texture_clear_cmds(old(out).bg, self.shapes(), pos, prev),
            final(out).same_settings(old(out)),
    {
        let ghost q0 = old(out).queued();
        let ghost scr = *old(out);
        let ghost bg = scr.bg;
        let ghost ts = self.shapes();
        let ghost f = |i: int| shape_clear_cmds(bg, ts[i], pos, prev);
        let mut i: usize = 0;
        while i < self.textures.len()
            invariant
                i <= self.textures@.len(),
                ts == self.textures@,
                self.clear_ok(pos, prev),
                out.same_settings(&scr),
                bg == scr.bg,
                f == (|i: int| shape_clear_cmds(bg, ts[i], pos, prev)),
                out.queued() == q0 + concat_cmds(i as nat, f),
            decreases self.textures@.len() - i,
        {
            let ghost before = out.queued();
            assert(shape_clear_ok(self.shapes()[i as int], pos, prev));
            self.textures[i].clearself(out, pos, prev);
            proof {
                lemma_concat_cmds_step(i as nat, f);
            }
            assert(out.queued() =~= before + f(i as int));
            i = i + 1;
        }
        true
    }
}

/// Turning levels into a colour and back gives the same levels.
pub proof fn lemma_rgb_round_trip(v: RGB)
    requires
        !v.res,
    ensures
        gcolor_rgb(rgb_gcolor(v)) == v,
        rgb_gcolor(v) != GColor::Default,
{
}

/// Turning a colour into levels and back gives a colour with the same levels.
pub proof fn lemma_gcolor_round_trip(c: GColor)
    requires
        c != GColor::Default,
    ensures
        gcolor_rgb(rgb_gcolor(gcolor_rgb(c))) == gcolor_rgb(c),
        c != GColor::ResetColor ==> !gcolor_rgb(c).res,
{
}

/// From code 8 on, both readings of an ANSI code give the same levels.
pub proof fn lemma_ansi_readings_agree(code: u8)
    requires
        code >= 8,
    ensures
        gcolor_rgb(ansi_gcolor(code)) == ansi_rgb(code),
{
}


/// Repeating a two-element block: the copies alternate its two elements.
proof fn lemma_repeat_pair<A>(s: Seq<A>, n: nat)
    requires
        s.len() == 2,
    ensures
        repeat_seq(s, n).len() == 2 * n,
        forall|k: int| 0 <= k < n ==> (#[trigger] repeat_seq(s, n)[2 * k]) == s[0] && repeat_seq(s, n)[2 * k + 1] == s[1],
    decreases n,
{
    if n > 0 {
        lemma_repeat_pair(s, (n - 1) as nat);
        let prev = repeat_seq(s, (n - 1) as nat);
        assert(repeat_seq(s, n) == prev + s);
        assert forall|k: int| 0 <= k < n implies (#[trigger] repeat_seq(s, n)[2 * k]) == s[0] && repeat_seq(s, n)[2 * k + 1] == s[1] by {
            if k < n - 1 {
                assert(prev[2 * k] == s[0]);
            }
        }
    }
}

/// A 45-degree line is drawn from its left end `a`, one cell per column,
/// each cell followed by a one-row move toward its right end `z`: down when
/// `z` is lower on the screen, up when it is higher. After as many moves as
/// the line has columns less one, the rows walked reach the row of `z`.
#[verifier::spinoff_prover]
pub proof fn lemma_diagonal_moves_toward_end(bg: (GColor, GColor, char), start: Vec2, end: Vec2, ch: TermPrint)
    requires
        start.x != end.x,
        abs(start.x - end.x) == abs(start.y - end.y),
    ensures
        ({
            let a = if start.x < end.x { start } else { end };
            let z = if start.x < end.x { end } else { start };
            let n = z.x - a.x + 1;
            let cmds = line_cmds(bg, start, end, ch);
            &&& cmds.len() == 1 + 2 * n
            &&& cmds[0] == cell(a.x as int, a.y as int)
            &&& forall|k: int| 0 <= k < n ==> cmds[1 + 2 * k] == print_term(bg, ch)
                && #[trigger] cmds[2 + 2 * k] == CommandView::Cursor(
                    if a.y < z.y { CursorMoveTo::Down(1) } else { CursorMoveTo::Up(1) },
                )
            &&& (if a.y < z.y { a.y + (n - 1) == z.y } else { a.y - (n - 1) == z.y })
        }),
{
    let a = if start.x < end.x { start } else { end };
    let z = if start.x < end.x { end } else { start };
    let n = z.x - a.x + 1;
    let dir = if a.y > z.y { CursorMoveTo::Up(1) } else { CursorMoveTo::Down(1) };
    let block = seq![print_term(bg, ch), CommandView::Cursor(dir)];
    lemma_repeat_pair(block, n as nat);
    let cmds = line_cmds(bg, start, end, ch);
    assert(cmds == seq![cell(a.x as int, a.y as int)] + repeat_seq(block, n as nat));
    assert(cmds.len() == 1 + 2 * n);
    assert(cmds[0] == cell(a.x as int, a.y as int));
    assert(if a.y < z.y { a.y + (n - 1) == z.y } else { a.y - (n - 1) == z.y });
    assert forall|k: int| 0 <= k < n implies cmds[1 + 2 * k] == print_term(bg, ch)
        && #[trigger] cmds[2 + 2 * k] == CommandView::Cursor(
            if a.y < z.y { CursorMoveTo::Down(1) } else { CursorMoveTo::Up(1) },
        ) by {
        assert(repeat_seq(block, n as nat)[2 * k] == block[0]);
        assert(cmds[1 + 2 * k] == repeat_seq(block, n as nat)[2 * k]);
        assert(cmds[2 + 2 * k] == repeat_seq(block, n as nat)[2 * k + 1]);
    }
}

} // verus!
