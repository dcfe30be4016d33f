//! The vector-markup element that each drawing command becomes.
use vstd::prelude::*;
use crate::decimal::Decimal;
use crate::style::{Color, FontStyle, FontTransform, HPos, ShapeStyle, TextStyle, VPos};
use crate::text::{escaped, int_text, nat_text, push_char, push_escaped, push_int, push_nat, push_str};

verus! {

/// ` name="value"`
pub open spec fn attr(name: Seq<char>, value: Seq<char>) -> Seq<char> {
    seq![' '] + name + seq!['=', '"'] + value + seq!['"']
}

/// `x,y ` for each point, in order.
pub open spec fn points_text(pts: Seq<(i32, i32)>) -> Seq<char>
    decreases pts.len(),
{
    if pts.len() == 0 {
        Seq::empty()
    } else {
        let (x, y) = pts.last();
        points_text(pts.drop_last()) + int_text(x as int) + seq![','] + int_text(y as int) + seq![' ']
    }
}

/// `fill` and `stroke` of a shape: the color goes to one, `none` to the other.
pub open spec fn paint(color: Color, filled: bool) -> (Seq<char>, Seq<char>) {
    if filled {
        (color.hex(), "none"@)
    } else {
        ("none"@, color.hex())
    }
}

pub open spec fn pixel_markup(point: (i32, i32), color: Color) -> Seq<char> {
    "<rect"@ + attr("x"@, int_text(point.0 as int)) + attr("y"@, int_text(point.1 as int))
        + attr("width"@, "1"@) + attr("height"@, "1"@) + attr("fill"@, color.hex())
        + attr("stroke"@, "none"@) + "/>"@
}

pub open spec fn line_markup(from: (i32, i32), to: (i32, i32), style: ShapeStyle) -> Seq<char> {
    "<line"@ + attr("x1"@, int_text(from.0 as int)) + attr("y1"@, int_text(from.1 as int))
        + attr("x2"@, int_text(to.0 as int)) + attr("y2"@, int_text(to.1 as int))
        + attr("stroke"@, style.color.hex()) + attr("opacity"@, style.color.alpha.text())
        + attr("stroke-width"@, nat_text(style.stroke_width as nat)) + "/>"@
}

/// The width and height are the differences of the corners, negative where the
/// corners come in the other order.
pub open spec fn rect_markup(
    upper_left: (i32, i32),
    bottom_right: (i32, i32),
    style: ShapeStyle,
    filled: bool,
) -> Seq<char> {
    "<rect"@ + attr("x"@, int_text(upper_left.0 as int)) + attr("y"@, int_text(upper_left.1 as int))
        + attr("width"@, int_text(bottom_right.0 - upper_left.0))
        + attr("height"@, int_text(bottom_right.1 - upper_left.1))
        + attr("opacity"@, style.color.alpha.text())
        + attr("fill"@, paint(style.color, filled).0)
        + attr("stroke"@, paint(style.color, filled).1) + "/>"@
}

pub open spec fn path_markup(points: Seq<(i32, i32)>, style: ShapeStyle) -> Seq<char> {
    "<path"@ + attr("fill"@, "none"@) + attr("opacity"@, style.color.alpha.text())
        + attr("stroke"@, style.color.hex())
        + attr("stroke-width"@, nat_text(style.stroke_width as nat))
        + attr("points"@, points_text(points)) + "/>"@
}

pub open spec fn polygon_markup(points: Seq<(i32, i32)>, style: ShapeStyle) -> Seq<char> {
    "<polygon"@ + attr("fill"@, style.color.hex()) + attr("opacity"@, style.color.alpha.text())
        + attr("points"@, points_text(points)) + "/>"@
}

pub open spec fn circle_markup(center: (i32, i32), radius: u32, style: ShapeStyle, filled: bool) -> Seq<char> {
    "<circle"@ + attr("cx"@, int_text(center.0 as int)) + attr("cy"@, int_text(center.1 as int))
        + attr("r"@, nat_text(radius as nat)) + attr("opacity"@, style.color.alpha.text())
        + attr("fill"@, paint(style.color, filled).0) + attr("stroke"@, paint(style.color, filled).1)
        + attr("stroke-width"@, nat_text(style.stroke_width as nat)) + "/>"@
}

/// The `text-anchor` that a horizontal position maps to.
pub open spec fn anchor_text(h: HPos) -> Seq<char> {
    match h {
        HPos::Left => "start"@,
        HPos::Right => "end"@,
        HPos::Center => "middle"@,
    }
}

/// The baseline shift (`dy`) that a vertical position maps to.
pub open spec fn baseline_text(v: VPos) -> Seq<char> {
    match v {
        VPos::Top => "0.76em"@,
        VPos::Center => "0.5ex"@,
        VPos::Bottom => "-0.5ex"@,
    }
}

/// `rotate(angle, x, y)` about the anchor point; empty for upright text.
pub open spec fn transform_text(t: FontTransform, pos: (i32, i32)) -> Seq<char> {
    let about = seq![','] + seq![' '] + int_text(pos.0 as int) + seq![','] + seq![' ']
        + int_text(pos.1 as int) + seq![')'];
    match t {
        FontTransform::Upright => Seq::empty(),
        FontTransform::Rotate90 => "rotate(90"@ + about,
        FontTransform::Rotate180 => "rotate(180"@ + about,
        FontTransform::Rotate270 => "rotate(270"@ + about,
    }
}

/// `font-style`: the style's name, but empty for bold, which goes to `font-weight`.
pub open spec fn font_style_text(s: FontStyle) -> Seq<char> {
    if s == FontStyle::Bold { Seq::empty() } else { s.name() }
}

/// `font-weight`: `bold` for bold text, else empty.
pub open spec fn font_weight_text(s: FontStyle) -> Seq<char> {
    if s == FontStyle::Bold { "bold"@ } else { Seq::empty() }
}

pub open spec fn text_markup(text: Seq<char>, style: TextStyle, pos: (i32, i32)) -> Seq<char> {
    "<text"@ + attr("x"@, int_text(pos.0 as int)) + attr("y"@, int_text(pos.1 as int))
        + attr("dy"@, baseline_text(style.v_pos)) + attr("text-anchor"@, anchor_text(style.h_pos))
        + attr("font-family"@, escaped(style.family@)) + attr("font-size"@, style.size.text())
        + attr("opacity"@, style.color.alpha.text()) + attr("fill"@, style.color.hex())
        + attr("transform"@, transform_text(style.transform, pos))
        + attr("font-style"@, font_style_text(style.style))
        + attr("font-weight"@, font_weight_text(style.style)) + ">"@ + escaped(text) + "</text>"@
}

/// Appends ` name="`.
fn open_attr(out: &mut String, name: &str)
    ensures
        final(out)@ == old(out)@ + seq![' '] + name@ + seq!['=', '"'],
{
    push_char(out, ' ');
    push_str(out, name);
    push_char(out, '=');
    push_char(out, '"');
    assert(final(out)@ =~= old(out)@ + seq![' '] + name@ + seq!['=', '"']);
}

/// Appends ` name="value"` for a value that needs no escaping.
fn attr_str(out: &mut String, name: &str, value: &str)
    ensures
        final(out)@ == old(out)@ + attr(name@, value@),
{
    open_attr(out, name);
    push_str(out, value);
    push_char(out, '"');
    assert(final(out)@ =~= old(out)@ + attr(name@, value@));
}

fn attr_int(out: &mut String, name: &str, value: i64)
    requires
        value > i64::MIN,
    ensures
        final(out)@ == old(out)@ + attr(name@, int_text(value as int)),
{
    open_attr(out, name);
    push_int(out, value);
    push_char(out, '"');
    assert(final(out)@ =~= old(out)@ + attr(name@, int_text(value as int)));
}

fn attr_nat(out: &mut String, name: &str, value: u64)
    ensures
        final(out)@ == old(out)@ + attr(name@, nat_text(value as nat)),
{
    open_attr(out, name);
    push_nat(out, value);
    push_char(out, '"');
    assert(final(out)@ =~= old(out)@ + attr(name@, nat_text(value as nat)));
}

fn attr_hex(out: &mut String, name: &str, color: &Color)
    ensures
        final(out)@ == old(out)@ + attr(name@, color.hex()),
{
    open_attr(out, name);
    color.write_hex(out);
    push_char(out, '"');
    assert(final(out)@ =~= old(out)@ + attr(name@, color.hex()));
}

fn attr_decimal(out: &mut String, name: &str, value: &Decimal)
    ensures
        final(out)@ == old(out)@ + attr(name@, value.text()),
{
    open_attr(out, name);
    value.write_to(out);
    push_char(out, '"');
    assert(final(out)@ =~= old(out)@ + attr(name@, value.text()));
}

fn attr_escaped(out: &mut String, name: &str, value: &str)
    ensures
        final(out)@ == old(out)@ + attr(name@, escaped(value@)),
{
    open_attr(out, name);
    push_escaped(out, value);
    push_char(out, '"');
    assert(final(out)@ =~= old(out)@ + attr(name@, escaped(value@)));
}

/// Appends `fill` and then `stroke` of a shape.
fn attr_paint(out: &mut String, color: &Color, filled: bool)
    ensures
        final(out)@ == old(out)@ + attr("fill"@, paint(*color, filled).0)
            + attr("stroke"@, paint(*color, filled).1),
{
    if filled {
        attr_hex(out, "fill", color);
        attr_str(out, "stroke", "none");
    } else {
        attr_str(out, "fill", "none");
        attr_hex(out, "stroke", color);
    }
}

/// Appends `x,y ` for each point.
fn write_points(out: &mut String, points: &Vec<(i32, i32)>)
    ensures
        final(out)@ == old(out)@ + points_text(points@),
{
    let ghost start = out@;
    let mut i: usize = 0;
    while i < points.len()
        invariant
            i <= points@.len(),
            out@ == start + points_text(points@.take(i as int)),
        decreases points@.len() - i,
    {
        let (x, y) = points[i];
        push_int(out, x as i64);
        push_char(out, ',');
        push_int(out, y as i64);
        push_char(out, ' ');
        proof {
            let next = points@.take(i as int + 1);
            assert(next.drop_last() =~= points@.take(i as int));
            assert(out@ =~= start + points_text(next));
        }
        i = i + 1;
    }
    assert(points@.take(points@.len() as int) =~= points@);
}

/// The markup of a single pixel: a 1 by 1 filled square.
pub fn pixel_element(point: (i32, i32), color: &Color) -> (r: String)
    ensures
        r@ == pixel_markup(point, *color),
{
    let mut s = String::new();
    push_str(&mut s, "<rect");
    attr_int(&mut s, "x", point.0 as i64);
    attr_int(&mut s, "y", point.1 as i64);
    attr_str(&mut s, "width", "1");
    attr_str(&mut s, "height", "1");
    attr_hex(&mut s, "fill", color);
    attr_str(&mut s, "stroke", "none");
    push_str(&mut s, "/>");
    assert(s@ =~= pixel_markup(point, *color));
    s
}

pub fn line_element(from: (i32, i32), to: (i32, i32), style: &ShapeStyle) -> (r: String)
    ensures
        r@ == line_markup(from, to, *style),
{
    let mut s = String::new();
    push_str(&mut s, "<line");
    attr_int(&mut s, "x1", from.0 as i64);
    attr_int(&mut s, "y1", from.1 as i64);
    attr_int(&mut s, "x2", to.0 as i64);
    attr_int(&mut s, "y2", to.1 as i64);
    attr_hex(&mut s, "stroke", &style.color);
    attr_decimal(&mut s, "opacity", &style.color.alpha);
    attr_nat(&mut s, "stroke-width", style.stroke_width as u64);
    push_str(&mut s, "/>");
    assert(s@ =~= line_markup(from, to, *style));
    s
}

pub fn rect_element(upper_left: (i32, i32), bottom_right: (i32, i32), style: &ShapeStyle, filled: bool) -> (r: String)
    ensures
        r@ == rect_markup(upper_left, bottom_right, *style, filled),
{
    let mut s = String::new();
    push_str(&mut s, "<rect");
    attr_int(&mut s, "x", upper_left.0 as i64);
    attr_int(&mut s, "y", upper_left.1 as i64);
    attr_int(&mut s, "width", bottom_right.0 as i64 - upper_left.0 as i64);
    attr_int(&mut s, "height", bottom_right.1 as i64 - upper_left.1 as i64);
    attr_decimal(&mut s, "opacity", &style.color.alpha);
    attr_paint(&mut s, &style.color, filled);
    push_str(&mut s, "/>");
    assert(s@ =~= rect_markup(upper_left, bottom_right, *style, filled));
    s
}

pub fn path_element(points: &Vec<(i32, i32)>, style: &ShapeStyle) -> (r: String)
    ensures
        r@ == path_markup(points@, *style),
{
    let mut s = String::new();
    push_str(&mut s, "<path");
    attr_str(&mut s, "fill", "none");
    attr_decimal(&mut s, "opacity", &style.color.alpha);
    attr_hex(&mut s, "stroke", &style.color);
    attr_nat(&mut s, "stroke-width", style.stroke_width as u64);
    open_attr(&mut s, "points");
    write_points(&mut s, points);
    push_char(&mut s, '"');
    push_str(&mut s, "/>");
    assert(s@ =~= path_markup(points@, *style));
    s
}

pub fn polygon_element(points: &Vec<(i32, i32)>, style: &ShapeStyle) -> (r: String)
    ensures
        r@ == polygon_markup(points@, *style),
{
    let mut s = String::new();
    push_str(&mut s, "<polygon");
    attr_hex(&mut s, "fill", &style.color);
    attr_decimal(&mut s, "opacity", &style.color.alpha);
    open_attr(&mut s, "points");
    write_points(&mut s, points);
    push_char(&mut s, '"');
    push_str(&mut s, "/>");
    assert(s@ =~= polygon_markup(points@, *style));
    s
}

pub fn circle_element(center: (i32, i32), radius: u32, style: &ShapeStyle, filled: bool) -> (r: String)
    ensures
        r@ == circle_markup(center, radius, *style, filled),
{
    let mut s = String::new();
    push_str(&mut s, "<circle");
    attr_int(&mut s, "cx", center.0 as i64);
    attr_int(&mut s, "cy", center.1 as i64);
    attr_nat(&mut s, "r", radius as u64);
    attr_decimal(&mut s, "opacity", &style.color.alpha);
    attr_paint(&mut s, &style.color, filled);
    attr_nat(&mut s, "stroke-width", style.stroke_width as u64);
    push_str(&mut s, "/>");
    assert(s@ =~= circle_markup(center, radius, *style, filled));
    s
}

/// The `text-anchor` that a horizontal position maps to.
pub fn text_anchor(h: HPos) -> (r: &'static str)
    ensures
        r@ == anchor_text(h),
{
    match h {
        HPos::Left => "start",
        HPos::Right => "end",
        HPos::Center => "middle",
    }
}

/// The baseline shift that a vertical position maps to.
pub fn baseline_shift(v: VPos) -> (r: &'static str)
    ensures
        r@ == baseline_text(v),
{
    match v {
        VPos::Top => "0.76em",
        VPos::Center => "0.5ex",
        VPos::Bottom => "-0.5ex",
    }
}

/// Appends the `transform` value of text drawn at `pos`.
fn write_transform(out: &mut String, t: FontTransform, pos: (i32, i32))
    ensures
        final(out)@ == old(out)@ + transform_text(t, pos),
{
    let ghost start = out@;
    match t {
        FontTransform::Upright => {
            assert(out@ =~= start + transform_text(t, pos));
            return;
        },
        FontTransform::Rotate90 => push_str(out, "rotate(90"),
        FontTransform::Rotate180 => push_str(out, "rotate(180"),
        FontTransform::Rotate270 => push_str(out, "rotate(270"),
    }
    push_char(out, ',');
    push_char(out, ' ');
    push_int(out, pos.0 as i64);
    push_char(out, ',');
    push_char(out, ' ');
    push_int(out, pos.1 as i64);
    push_char(out, ')');
    assert(out@ =~= start + transform_text(t, pos));
}

/// Appends `font-style` and then `font-weight`.
fn attr_font_face(out: &mut String, style: FontStyle)
    ensures
        final(out)@ == old(out)@ + attr("font-style"@, font_style_text(style))
            + attr("font-weight"@, font_weight_text(style)),
{
    if style == FontStyle::Bold {
        attr_str(out, "font-style", "");
        attr_str(out, "font-weight", "bold");
        assert(""@ =~= Seq::<char>::empty()) by {
            reveal_strlit("");
        }
    } else {
        attr_str(out, "font-style", style.as_str());
        attr_str(out, "font-weight", "");
        assert(""@ =~= Seq::<char>::empty()) by {
            reveal_strlit("");
        }
    }
}

/// The markup of a piece of text drawn at `pos`, the text itself escaped.
pub fn text_element(text: &str, style: &TextStyle, pos: (i32, i32)) -> (r: String)
    ensures
        r@ == text_markup(text@, *style, pos),
{
    let mut s = String::new();
    push_str(&mut s, "<text");
    attr_int(&mut s, "x", pos.0 as i64);
    attr_int(&mut s, "y", pos.1 as i64);
    attr_str(&mut s, "dy", baseline_shift(style.v_pos));
    attr_str(&mut s, "text-anchor", text_anchor(style.h_pos));
    attr_escaped(&mut s, "font-family", style.family.as_str());
    attr_decimal(&mut s, "font-size", &style.size);
    attr_decimal(&mut s, "opacity", &style.color.alpha);
    attr_hex(&mut s, "fill", &style.color);
    open_attr(&mut s, "transform");
    write_transform(&mut s, style.transform, pos);
    push_char(&mut s, '"');
    attr_font_face(&mut s, style.style);
    push_str(&mut s, ">");
    push_escaped(&mut s, text);
    push_str(&mut s, "</text>");
    assert(s@ =~= text_markup(text@, *style, pos));
    s
}

} // verus!
