//! Colors and the drawing styles that commands carry.
use vstd::prelude::*;
use crate::decimal::Decimal;
use crate::text::{hex_byte_text, push_char, push_hex_byte};

verus! {

/// An RGB color with an opacity.
#[derive(Clone, Copy, Debug, PartialEq, Eq, Structural)]
pub struct Color {
    pub r: u8,
    pub g: u8,
    pub b: u8,
    pub alpha: Decimal,
}

/// Horizontal placement of text relative to its anchor point.
#[derive(Clone, Copy, Debug, PartialEq, Eq, Structural)]
pub enum HPos {
    Left,
    Right,
    Center,
}

/// Vertical placement of text relative to its anchor point.
#[derive(Clone, Copy, Debug, PartialEq, Eq, Structural)]
pub enum VPos {
    Top,
    Center,
    Bottom,
}

/// The style of a font face.
#[derive(Clone, Copy, Debug, PartialEq, Eq, Structural)]
pub enum FontStyle {
    Normal,
    Oblique,
    Italic,
    Bold,
}

/// A rotation of text about its anchor point.
#[derive(Clone, Copy, Debug, PartialEq, Eq, Structural)]
pub enum FontTransform {
    Upright,
    Rotate90,
    Rotate180,
    Rotate270,
}

/// Color and line width of a shape.
#[derive(Clone, Copy, Debug, PartialEq, Eq, Structural)]
pub struct ShapeStyle {
    pub color: Color,
    pub stroke_width: u32,
}

/// Everything that decides how a piece of text is drawn.
///
/// `size` is the font size in markup units.
pub struct TextStyle {
    pub color: Color,
    pub family: String,
    pub size: Decimal,
    pub h_pos: HPos,
    pub v_pos: VPos,
    pub style: FontStyle,
    pub transform: FontTransform,
}

impl Color {
    /// A command in a fully transparent color draws nothing.
    pub open spec fn spec_is_transparent(&self) -> bool {
        self.alpha.spec_is_zero()
    }

    /// `#RRGGBB`, two upper-case hexadecimal digits per channel.
    pub open spec fn hex(&self) -> Seq<char> {
        seq!['#'] + hex_byte_text(self.r) + hex_byte_text(self.g) + hex_byte_text(self.b)
    }

    #[verifier::when_used_as_spec(spec_is_transparent)]
    pub fn is_transparent(&self) -> (r: bool)
        ensures
            r == self.spec_is_transparent(),
    {
        self.alpha.is_zero()
    }

    /// Appends the `#RRGGBB` form of the color.
    pub fn write_hex(&self, out: &mut String)
        ensures
            final(out)@ == old(out)@ + self.hex(),
    {
        push_char(out, '#');
        push_hex_byte(out, self.r);
        push_hex_byte(out, self.g);
        push_hex_byte(out, self.b);
        assert(final(out)@ =~= old(out)@ + self.hex());
    }

    /// The `#RRGGBB` form of the color.
    pub fn to_hex(&self) -> (r: String)
        ensures
            r@ == self.hex(),
    {
        let mut r = String::new();
        self.write_hex(&mut r);
        assert(r@ =~= self.hex());
        r
    }

    /// The opacity as markup writes it.
    pub fn opacity_text(&self) -> (r: String)
        ensures
            r@ == self.alpha.text(),
    {
        let mut r = String::new();
        self.alpha.write_to(&mut r);
        assert(r@ =~= self.alpha.text());
        r
    }
}

impl FontStyle {
    /// The name of the style.
    pub open spec fn name(&self) -> Seq<char> {
        match self {
            FontStyle::Normal => "normal"@,
            FontStyle::Oblique => "oblique"@,
            FontStyle::Italic => "italic"@,
            FontStyle::Bold => "bold"@,
        }
    }

    /// The name of the style.
    pub fn as_str(&self) -> (r: &'static str)
        ensures
            r@ == self.name(),
    {
        match self {
            FontStyle::Normal => "normal",
            FontStyle::Oblique => "oblique",
            FontStyle::Italic => "italic",
            FontStyle::Bold => "bold",
        }
    }
}

} // verus!
