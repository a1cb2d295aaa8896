//! Styled text segments and the fixed color / style tables.
//!
//! A decoded description is a flat sequence of [`StyledSegment`]s: a text
//! fragment, an optional truecolor foreground (unset means the default
//! white), and a set of style flags.  The tables map the legacy one-letter
//! codes and the component-tree color names to fixed RGB triples.

use vstd::prelude::*;

verus! {

/// One truecolor value.
#[derive(Clone, Copy, Debug, PartialEq, Eq, Structural)]
pub struct Rgb {
    pub r: u8,
    pub g: u8,
    pub b: u8,
}

/// The set of active style flags of a segment.
#[derive(Clone, Copy, Debug, PartialEq, Eq, Structural)]
pub struct StyleSet {
    pub obfuscated: bool,
    pub bold: bool,
    pub strikethrough: bool,
    pub underline: bool,
    pub italic: bool,
}

/// The style set with every flag unset.
pub open spec fn no_styles() -> StyleSet {
    StyleSet {
        obfuscated: false,
        bold: false,
        strikethrough: false,
        underline: false,
        italic: false,
    }
}

impl StyleSet {
    /// Returns the style set with every flag unset.
    pub fn empty() -> (r: StyleSet)
        ensures
            r == no_styles(),
    {
        StyleSet {
            obfuscated: false,
            bold: false,
            strikethrough: false,
            underline: false,
            italic: false,
        }
    }
}

/// A text fragment together with the color and styles it is rendered with.
#[derive(Clone, Debug)]
pub struct StyledSegment {
    pub text: String,
    /// `None` is the unset color; a renderer shows it as white.
    pub color: Option<Rgb>,
    pub styles: StyleSet,
}

/// The mathematical value of a [`StyledSegment`].
#[verifier::ext_equal]
pub struct SegView {
    pub text: Seq<char>,
    pub color: Option<Rgb>,
    pub styles: StyleSet,
}

impl View for StyledSegment {
    type V = SegView;

    open spec fn view(&self) -> SegView {
        SegView { text: self.text@, color: self.color, styles: self.styles }
    }
}

impl DeepView for StyledSegment {
    type V = SegView;

    open spec fn deep_view(&self) -> SegView {
        self.view()
    }
}

/// The marker character that starts a legacy control code.
pub open spec fn marker() -> char {
    '\u{a7}'
}

/// A legacy style code: every toggle plus the reset code.
#[derive(Clone, Copy, Debug, PartialEq, Eq, Structural)]
pub enum LegacyStyle {
    Obfuscated,
    Bold,
    Strikethrough,
    Underline,
    Italic,
    Reset,
}

/// The color mapped to a legacy one-letter code: the 16 standard codes plus
/// the 11 extended material and mineral codes.
pub open spec fn code_color(c: char) -> Option<Rgb> {
    match c {
        '0' => Some(Rgb { r: 0, g: 0, b: 0 }),
        '1' => Some(Rgb { r: 0, g: 0, b: 170 }),
        '2' => Some(Rgb { r: 0, g: 170, b: 0 }),
        '3' => Some(Rgb { r: 0, g: 170, b: 170 }),
        '4' => Some(Rgb { r: 170, g: 0, b: 0 }),
        '5' => Some(Rgb { r: 170, g: 0, b: 170 }),
        '6' => Some(Rgb { r: 255, g: 170, b: 0 }),
        '7' => Some(Rgb { r: 170, g: 170, b: 170 }),
        '8' => Some(Rgb { r: 85, g: 85, b: 85 }),
        '9' => Some(Rgb { r: 85, g: 85, b: 255 }),
        'a' => Some(Rgb { r: 85, g: 255, b: 85 }),
        'b' => Some(Rgb { r: 85, g: 255, b: 255 }),
        'c' => Some(Rgb { r: 255, g: 85, b: 85 }),
        'd' => Some(Rgb { r: 255, g: 85, b: 255 }),
        'e' => Some(Rgb { r: 255, g: 255, b: 85 }),
        'f' => Some(Rgb { r: 255, g: 255, b: 255 }),
        'g' => Some(Rgb { r: 221, g: 214, b: 5 }),
        'h' => Some(Rgb { r: 227, g: 212, b: 209 }),
        'i' => Some(Rgb { r: 206, g: 202, b: 202 }),
        'j' => Some(Rgb { r: 68, g: 58, b: 59 }),
        'm' => Some(Rgb { r: 151, g: 22, b: 7 }),
        'n' => Some(Rgb { r: 180, g: 104, b: 77 }),
        'p' => Some(Rgb { r: 222, g: 177, b: 45 }),
        'q' => Some(Rgb { r: 17, g: 160, b: 54 }),
        's' => Some(Rgb { r: 44, g: 186, b: 168 }),
        't' => Some(Rgb { r: 33, g: 73, b: 123 }),
        'u' => Some(Rgb { r: 154, g: 92, b: 198 }),
        _ => None,
    }
}

/// Looks a legacy color code up in the fixed palette.
pub fn color_of_code(c: char) -> (r: Option<Rgb>)
    ensures
        r == code_color(c),
{
    match c {
        '0' => Some(Rgb { r: 0, g: 0, b: 0 }),
        '1' => Some(Rgb { r: 0, g: 0, b: 170 }),
        '2' => Some(Rgb { r: 0, g: 170, b: 0 }),
        '3' => Some(Rgb { r: 0, g: 170, b: 170 }),
        '4' => Some(Rgb { r: 170, g: 0, b: 0 }),
        '5' => Some(Rgb { r: 170, g: 0, b: 170 }),
        '6' => Some(Rgb { r: 255, g: 170, b: 0 }),
        '7' => Some(Rgb { r: 170, g: 170, b: 170 }),
        '8' => Some(Rgb { r: 85, g: 85, b: 85 }),
        '9' => Some(Rgb { r: 85, g: 85, b: 255 }),
        'a' => Some(Rgb { r: 85, g: 255, b: 85 }),
        'b' => Some(Rgb { r: 85, g: 255, b: 255 }),
        'c' => Some(Rgb { r: 255, g: 85, b: 85 }),
        'd' => Some(Rgb { r: 255, g: 85, b: 255 }),
        'e' => Some(Rgb { r: 255, g: 255, b: 85 }),
        'f' => Some(Rgb { r: 255, g: 255, b: 255 }),
        'g' => Some(Rgb { r: 221, g: 214, b: 5 }),
        'h' => Some(Rgb { r: 227, g: 212, b: 209 }),
        'i' => Some(Rgb { r: 206, g: 202, b: 202 }),
        'j' => Some(Rgb { r: 68, g: 58, b: 59 }),
        'm' => Some(Rgb { r: 151, g: 22, b: 7 }),
        'n' => Some(Rgb { r: 180, g: 104, b: 77 }),
        'p' => Some(Rgb { r: 222, g: 177, b: 45 }),
        'q' => Some(Rgb { r: 17, g: 160, b: 54 }),
        's' => Some(Rgb { r: 44, g: 186, b: 168 }),
        't' => Some(Rgb { r: 33, g: 73, b: 123 }),
        'u' => Some(Rgb { r: 154, g: 92, b: 198 }),
        _ => None,
    }
}

/// The style mapped to a legacy one-letter code.  The codes for
/// strikethrough and underline collide with two extended color codes; the
/// decoder gives the color table precedence, as the table order dictates.
pub open spec fn style_of_code(c: char) -> Option<LegacyStyle> {
    match c {
        'k' => Some(LegacyStyle::Obfuscated),
        'l' => Some(LegacyStyle::Bold),
        'm' => Some(LegacyStyle::Strikethrough),
        'n' => Some(LegacyStyle::Underline),
        'o' => Some(LegacyStyle::Italic),
        'r' => Some(LegacyStyle::Reset),
        _ => None,
    }
}

/// Looks a legacy style code up in the fixed table.
pub fn style_code_of(c: char) -> (r: Option<LegacyStyle>)
    ensures
        r == style_of_code(c),
{
    match c {
        'k' => Some(LegacyStyle::Obfuscated),
        'l' => Some(LegacyStyle::Bold),
        'm' => Some(LegacyStyle::Strikethrough),
        'n' => Some(LegacyStyle::Underline),
        'o' => Some(LegacyStyle::Italic),
        'r' => Some(LegacyStyle::Reset),
        _ => None,
    }
}

/// Compares two string slices character by character.
pub fn str_eq(a: &str, b: &str) -> (r: bool)
    ensures
        r == (a@ == b@),
{
    let alen = a.unicode_len();
    let blen = b.unicode_len();
    if alen != blen {
        return false;
    }
    let mut i: usize = 0;
    while i < alen
        invariant
            alen == a@.len(),
            alen == b@.len(),
            i <= alen,
            forall|j: int| 0 <= j < i ==> a@[j] == b@[j],
        decreases alen - i,
    {
        if a.get_char(i) != b.get_char(i) {
            assert(a@[i as int] != b@[i as int]);
            return false;
        }
        i += 1;
    }
    proof {
        assert(a@ =~= b@);
    }
    true
}

/// The color mapped to a component-tree color name; an unrecognized name
/// maps to the unset color.
pub open spec fn name_color(s: Seq<char>) -> Option<Rgb> {
    if s == "black"@ {
        code_color('0')
    } else if s == "dark_blue"@ {
        code_color('1')
    } else if s == "dark_green"@ {
        code_color('2')
    } else if s == "dark_aqua"@ {
        code_color('3')
    } else if s == "dark_red"@ {
        code_color('4')
    } else if s == "dark_purple"@ {
        code_color('5')
    } else if s == "gold"@ {
        code_color('6')
    } else if s == "gray"@ {
        code_color('7')
    } else if s == "dark_gray"@ {
        code_color('8')
    } else if s == "blue"@ {
        code_color('9')
    } else if s == "green"@ {
        code_color('a')
    } else if s == "aqua"@ {
        code_color('b')
    } else if s == "red"@ {
        code_color('c')
    } else if s == "light_purple"@ {
        code_color('d')
    } else if s == "yellow"@ {
        code_color('e')
    } else if s == "white"@ {
        code_color('f')
    } else if s == "minecoin_gold"@ {
        code_color('g')
    } else if s == "material_quartz"@ {
        code_color('h')
    } else if s == "material_iron"@ {
        code_color('i')
    } else if s == "material_netherite"@ {
        code_color('j')
    } else if s == "material_redstone"@ {
        code_color('m')
    } else if s == "material_copper"@ {
        code_color('n')
    } else if s == "material_gold"@ {
        code_color('p')
    } else if s == "material_emerald"@ {
        code_color('q')
    } else if s == "material_diamond"@ {
        code_color('s')
    } else if s == "material_lapis"@ {
        code_color('t')
    } else if s == "material_amethyst"@ {
        code_color('u')
    } else {
        None
    }
}

/// Looks a component-tree color name up in the fixed palette.
pub fn color_of_name(s: &str) -> (r: Option<Rgb>)
    ensures
        r == name_color(s@),
{
    if str_eq(s, "black") {
        color_of_code('0')
    } else if str_eq(s, "dark_blue") {
        color_of_code('1')
    } else if str_eq(s, "dark_green") {
        color_of_code('2')
    } else if str_eq(s, "dark_aqua") {
        color_of_code('3')
    } else if str_eq(s, "dark_red") {
        color_of_code('4')
    } else if str_eq(s, "dark_purple") {
        color_of_code('5')
    } else if str_eq(s, "gold") {
        color_of_code('6')
    } else if str_eq(s, "gray") {
        color_of_code('7')
    } else if str_eq(s, "dark_gray") {
        color_of_code('8')
    } else if str_eq(s, "blue") {
        color_of_code('9')
    } else if str_eq(s, "green") {
        color_of_code('a')
    } else if str_eq(s, "aqua") {
        color_of_code('b')
    } else if str_eq(s, "red") {
        color_of_code('c')
    } else if str_eq(s, "light_purple") {
        color_of_code('d')
    } else if str_eq(s, "yellow") {
        color_of_code('e')
    } else if str_eq(s, "white") {
        color_of_code('f')
    } else if str_eq(s, "minecoin_gold") {
        color_of_code('g')
    } else if str_eq(s, "material_quartz") {
        color_of_code('h')
    } else if str_eq(s, "material_iron") {
        color_of_code('i')
    } else if str_eq(s, "material_netherite") {
        color_of_code('j')
    } else if str_eq(s, "material_redstone") {
        color_of_code('m')
    } else if str_eq(s, "material_copper") {
        color_of_code('n')
    } else if str_eq(s, "material_gold") {
        color_of_code('p')
    } else if str_eq(s, "material_emerald") {
        color_of_code('q')
    } else if str_eq(s, "material_diamond") {
        color_of_code('s')
    } else if str_eq(s, "material_lapis") {
        color_of_code('t')
    } else if str_eq(s, "material_amethyst") {
        color_of_code('u')
    } else {
        None
    }
}

} // verus!
