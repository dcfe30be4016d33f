//! Drawing adapters that turn drawing commands into vector-markup fragments.
use vstd::prelude::*;
use crate::markup::{
    circle_element, circle_markup, line_element, line_markup, path_element, path_markup,
    pixel_element, pixel_markup, polygon_element, polygon_markup, rect_element, rect_markup,
    text_element, text_markup,
};
use crate::style::{Color, ShapeStyle, TextStyle};
use crate::text::{nat_text, push_nat, push_str};

verus! {

/// What one command adds to the output: nothing in a transparent color, else
/// its element.
pub open spec fn emitted(color: Color, element: Seq<char>) -> Seq<Seq<char>> {
    if color.spec_is_transparent() {
        Seq::empty()
    } else {
        seq![element]
    }
}

/// The text of each fragment, in order.
pub open spec fn fragment_texts(fragments: Seq<String>) -> Seq<Seq<char>> {
    fragments.map_values(|f: String| f@)
}

/// An adapter that writes the markup of each command as it comes.
///
/// `fragments` holds one element per drawn command, in drawing order: later
/// elements paint over earlier ones.
pub struct Backend {
    pub fragments: Vec<String>,
    pub size: (u32, u32),
}

impl Backend {
    /// The markup written so far.
    pub open spec fn markup(&self) -> Seq<Seq<char>> {
        fragment_texts(self.fragments@)
    }

    /// An adapter for a drawing area of `size` (width, height), with nothing drawn.
    pub fn new(size: (u32, u32)) -> (r: Backend)
        ensures
            r.size == size,
            r.markup() == Seq::<Seq<char>>::empty(),
    {
        let r = Backend { fragments: Vec::new(), size };
        assert(r.markup() =~= Seq::<Seq<char>>::empty());
        r
    }

    pub fn get_size(&self) -> (r: (u32, u32))
        ensures
            r == self.size,
    {
        self.size
    }

    /// Appends one fragment.
    fn emit(&mut self, fragment: String)
        ensures
            final(self).size == old(self).size,
            final(self).markup() == old(self).markup().push(fragment@),
    {
        self.fragments.push(fragment);
        assert(self.markup() =~= old(self).markup().push(fragment@));
    }

    /// Draws one pixel: a 1 by 1 square in `color`.
    pub fn draw_pixel(&mut self, point: (i32, i32), color: Color)
        ensures
            final(self).size == old(self).size,
            color.spec_is_transparent() ==> final(self).markup() == old(self).markup(),
            final(self).markup() == old(self).markup() + emitted(color, pixel_markup(point, color)),
    {
        if !color.is_transparent() {
            self.emit(pixel_element(point, &color));
        }
        assert(self.markup() =~= old(self).markup() + emitted(color, pixel_markup(point, color)));
    }

    /// Draws a line segment from `from` to `to`.
    pub fn draw_line(&mut self, from: (i32, i32), to: (i32, i32), style: &ShapeStyle)
        ensures
            final(self).size == old(self).size,
            style.color.spec_is_transparent() ==> final(self).markup() == old(self).markup(),
            final(self).markup() == old(self).markup() + emitted(
                style.color,
                line_markup(from, to, *style),
            ),
    {
        if !style.color.is_transparent() {
            self.emit(line_element(from, to, style));
        }
        assert(self.markup() =~= old(self).markup() + emitted(style.color, line_markup(from, to, *style)));
    }

    /// Draws a rectangle between two corners, filled or outlined.
    pub fn draw_rect(&mut self, upper_left: (i32, i32), bottom_right: (i32, i32), style: &ShapeStyle, filled: bool)
        ensures
            final(self).size == old(self).size,
            style.color.spec_is_transparent() ==> final(self).markup() == old(self).markup(),
            final(self).markup() == old(self).markup() + emitted(
                style.color,
                rect_markup(upper_left, bottom_right, *style, filled),
            ),
    {
        if !style.color.is_transparent() {
            self.emit(rect_element(upper_left, bottom_right, style, filled));
        }
        assert(self.markup() =~= old(self).markup() + emitted(
            style.color,
            rect_markup(upper_left, bottom_right, *style, filled),
        ));
    }

    /// Draws an open path through `points`, in order.
    pub fn draw_path(&mut self, points: &Vec<(i32, i32)>, style: &ShapeStyle)
        ensures
            final(self).size == old(self).size,
            style.color.spec_is_transparent() ==> final(self).markup() == old(self).markup(),
            final(self).markup() == old(self).markup() + emitted(
                style.color,
                path_markup(points@, *style),
            ),
    {
        if !style.color.is_transparent() {
            self.emit(path_element(points, style));
        }
        assert(self.markup() =~= old(self).markup() + emitted(style.color, path_markup(points@, *style)));
    }

    /// Fills the polygon with corners `points`, in order.
    pub fn fill_polygon(&mut self, points: &Vec<(i32, i32)>, style: &ShapeStyle)
        ensures
            final(self).size == old(self).size,
            style.color.spec_is_transparent() ==> final(self).markup() == old(self).markup(),
            final(self).markup() == old(self).markup() + emitted(
                style.color,
                polygon_markup(points@, *style),
            ),
    {
        if !style.color.is_transparent() {
            self.emit(polygon_element(points, style));
        }
        assert(self.markup() =~= old(self).markup() + emitted(style.color, polygon_markup(points@, *style)));
    }

    /// Draws a circle, filled or outlined.
    pub fn draw_circle(&mut self, center: (i32, i32), radius: u32, style: &ShapeStyle, filled: bool)
        ensures
            final(self).size == old(self).size,
            style.color.spec_is_transparent() ==> final(self).markup() == old(self).markup(),
            final(self).markup() == old(self).markup() + emitted(
                style.color,
                circle_markup(center, radius, *style, filled),
            ),
    {
        if !style.color.is_transparent() {
            self.emit(circle_element(center, radius, style, filled));
        }
        assert(self.markup() =~= old(self).markup() + emitted(
            style.color,
            circle_markup(center, radius, *style, filled),
        ));
    }

    /// Draws `text` anchored at `pos`.
    pub fn draw_text(&mut self, text: &str, style: &TextStyle, pos: (i32, i32))
        ensures
            final(self).size == old(self).size,
            style.color.spec_is_transparent() ==> final(self).markup() == old(self).markup(),
            final(self).markup() == old(self).markup() + emitted(
                style.color,
                text_markup(text@, *style, pos),
            ),
    {
        if !style.color.is_transparent() {
            self.emit(text_element(text, style, pos));
        }
        assert(self.markup() =~= old(self).markup() + emitted(style.color, text_markup(text@, *style, pos)));
    }
}

/// One drawing command, kept until the drawing is rendered.
pub enum DrawCommand {
    Pixel { point: (i32, i32), color: Color },
    Line { from: (i32, i32), to: (i32, i32), style: ShapeStyle },
    Rect { upper_left: (i32, i32), bottom_right: (i32, i32), style: ShapeStyle, filled: bool },
    Path { points: Vec<(i32, i32)>, style: ShapeStyle },
    Polygon { points: Vec<(i32, i32)>, style: ShapeStyle },
    Circle { center: (i32, i32), radius: u32, style: ShapeStyle, filled: bool },
    Text { text: String, text_style: TextStyle, pos: (i32, i32) },
}

impl DrawCommand {
    /// The color the command draws in.
    pub open spec fn color(&self) -> Color {
        match self {
            DrawCommand::Pixel { color, .. } => *color,
            DrawCommand::Line { style, .. } => style.color,
            DrawCommand::Rect { style, .. } => style.color,
            DrawCommand::Path { style, .. } => style.color,
            DrawCommand::Polygon { style, .. } => style.color,
            DrawCommand::Circle { style, .. } => style.color,
            DrawCommand::Text { text_style, .. } => text_style.color,
        }
    }

    /// The element of the command.
    pub open spec fn element(&self) -> Seq<char> {
        match self {
            DrawCommand::Pixel { point, color } => pixel_markup(*point, *color),
            DrawCommand::Line { from, to, style } => line_markup(*from, *to, *style),
            DrawCommand::Rect { upper_left, bottom_right, style, filled } => rect_markup(
                *upper_left,
                *bottom_right,
                *style,
                *filled,
            ),
            DrawCommand::Path { points, style } => path_markup(points@, *style),
            DrawCommand::Polygon { points, style } => polygon_markup(points@, *style),
            DrawCommand::Circle { center, radius, style, filled } => circle_markup(
                *center,
                *radius,
                *style,
                *filled,
            ),
            DrawCommand::Text { text, text_style, pos } => text_markup(text@, *text_style, *pos),
        }
    }

    /// The markup of the command.
    pub fn render(&self) -> (r: String)
        ensures
            r@ == self.element(),
    {
        match self {
            DrawCommand::Pixel { point, color } => pixel_element(*point, color),
            DrawCommand::Line { from, to, style } => line_element(*from, *to, style),
            DrawCommand::Rect { upper_left, bottom_right, style, filled } => rect_element(
                *upper_left,
                *bottom_right,
                style,
                *filled,
            ),
            DrawCommand::Path { points, style } => path_element(points, style),
            DrawCommand::Polygon { points, style } => polygon_element(points, style),
            DrawCommand::Circle { center, radius, style, filled } => circle_element(
                *center,
                *radius,
                style,
                *filled,
            ),
            DrawCommand::Text { text, text_style, pos } => text_element(text.as_str(), text_style, *pos),
        }
    }
}

/// The markup of a sequence of commands: one element per command that is not
/// transparent, in order.
pub open spec fn commands_markup(commands: Seq<DrawCommand>) -> Seq<Seq<char>>
    decreases commands.len(),
{
    if commands.len() == 0 {
        Seq::empty()
    } else {
        let c = commands.last();
        commands_markup(commands.drop_last()) + emitted(c.color(), c.element())
    }
}

/// A copy of a point list.
fn copy_points(points: &Vec<(i32, i32)>) -> (r: Vec<(i32, i32)>)
    ensures
        r@ == points@,
{
    let mut r: Vec<(i32, i32)> = Vec::new();
    let mut i: usize = 0;
    while i < points.len()
        invariant
            i <= points@.len(),
            r@ == points@.take(i as int),
        decreases points@.len() - i,
    {
        r.push(points[i]);
        i = i + 1;
        assert(r@ =~= points@.take(i as int));
    }
    assert(points@.take(points@.len() as int) =~= points@);
    r
}

/// A copy of a text style.
fn copy_text_style(style: &TextStyle) -> (r: TextStyle)
    ensures
        r == *style,
{
    TextStyle {
        color: style.color,
        family: style.family.clone(),
        size: style.size,
        h_pos: style.h_pos,
        v_pos: style.v_pos,
        style: style.style,
        transform: style.transform,
    }
}

/// An adapter that keeps the commands and writes their markup when asked.
///
/// Commands in a transparent color are dropped as they come.
pub struct DioxusBackend {
    pub stack: Vec<DrawCommand>,
    pub size: (u32, u32),
}

impl DioxusBackend {
    /// The markup of the commands kept so far.
    pub open spec fn markup(&self) -> Seq<Seq<char>> {
        commands_markup(self.stack@)
    }

    /// An adapter for a drawing area of `size` (width, height), with nothing drawn.
    pub fn new(size: (u32, u32)) -> (r: DioxusBackend)
        ensures
            r.size == size,
            r.markup() == Seq::<Seq<char>>::empty(),
    {
        DioxusBackend { stack: Vec::new(), size }
    }

    pub fn get_size(&self) -> (r: (u32, u32))
        ensures
            r == self.size,
    {
        self.size
    }

    /// Keeps a command that is not transparent.
    fn keep(&mut self, command: DrawCommand)
        ensures
            final(self).size == old(self).size,
            final(self).markup() == old(self).markup() + emitted(command.color(), command.element()),
    {
        let ghost c = command;
        let ghost before = self.stack@;
        self.stack.push(command);
        assert(self.stack@.drop_last() =~= before);
        assert(self.stack@.last() == c);
    }

    pub fn draw_pixel(&mut self, point: (i32, i32), color: Color)
        ensures
            final(self).size == old(self).size,
            color.spec_is_transparent() ==> final(self).markup() == old(self).markup(),
            final(self).markup() == old(self).markup() + emitted(color, pixel_markup(point, color)),
    {
        if !color.is_transparent() {
            self.keep(DrawCommand::Pixel { point, color });
        } else {
            assert(self.markup() =~= old(self).markup() + emitted(color, pixel_markup(point, color)));
        }
    }

    pub fn draw_line(&mut self, from: (i32, i32), to: (i32, i32), style: &ShapeStyle)
        ensures
            final(self).size == old(self).size,
            style.color.spec_is_transparent() ==> final(self).markup() == old(self).markup(),
            final(self).markup() == old(self).markup() + emitted(
                style.color,
                line_markup(from, to, *style),
            ),
    {
        if !style.color.is_transparent() {
            self.keep(DrawCommand::Line { from, to, style: *style });
        } else {
            assert(self.markup() =~= old(self).markup() + emitted(style.color, line_markup(from, to, *style)));
        }
    }

    pub fn draw_rect(&mut self, upper_left: (i32, i32), bottom_right: (i32, i32), style: &ShapeStyle, filled: bool)
        ensures
            final(self).size == old(self).size,
            style.color.spec_is_transparent() ==> final(self).markup() == old(self).markup(),
            final(self).markup() == old(self).markup() + emitted(
                style.color,
                rect_markup(upper_left, bottom_right, *style, filled),
            ),
    {
        if !style.color.is_transparent() {
            self.keep(DrawCommand::Rect { upper_left, bottom_right, style: *style, filled });
        } else {
            assert(self.markup() =~= old(self).markup() + emitted(
                style.color,
                rect_markup(upper_left, bottom_right, *style, filled),
            ));
        }
    }

    pub fn draw_path(&mut self, points: &Vec<(i32, i32)>, style: &ShapeStyle)
        ensures
            final(self).size == old(self).size,
            style.color.spec_is_transparent() ==> final(self).markup() == old(self).markup(),
            final(self).markup() == old(self).markup() + emitted(
                style.color,
                path_markup(points@, *style),
            ),
    {
        if !style.color.is_transparent() {
            self.keep(DrawCommand::Path { points: copy_points(points), style: *style });
        } else {
            assert(self.markup() =~= old(self).markup() + emitted(style.color, path_markup(points@, *style)));
        }
    }

    pub fn fill_polygon(&mut self, points: &Vec<(i32, i32)>, style: &ShapeStyle)
        ensures
            final(self).size == old(self).size,
            style.color.spec_is_transparent() ==> final(self).markup() == old(self).markup(),
            final(self).markup() == old(self).markup() + emitted(
                style.color,
                polygon_markup(points@, *style),
            ),
    {
        if !style.color.is_transparent() {
            self.keep(DrawCommand::Polygon { points: copy_points(points), style: *style });
        } else {
            assert(self.markup() =~= old(self).markup() + emitted(style.color, polygon_markup(points@, *style)));
        }
    }

    pub fn draw_circle(&mut self, center: (i32, i32), radius: u32, style: &ShapeStyle, filled: bool)
        ensures
            final(self).size == old(self).size,
            style.color.spec_is_transparent() ==> final(self).markup() == old(self).markup(),
            final(self).markup() == old(self).markup() + emitted(
                style.color,
                circle_markup(center, radius, *style, filled),
            ),
    {
        if !style.color.is_transparent() {
            self.keep(DrawCommand::Circle { center, radius, style: *style, filled });
        } else {
            assert(self.markup() =~= old(self).markup() + emitted(
                style.color,
                circle_markup(center, radius, *style, filled),
            ));
        }
    }

    pub fn draw_text(&mut self, text: &str, style: &TextStyle, pos: (i32, i32))
        ensures
            final(self).size == old(self).size,
            style.color.spec_is_transparent() ==> final(self).markup() == old(self).markup(),
            final(self).markup() == old(self).markup() + emitted(
                style.color,
                text_markup(text@, *style, pos),
            ),
    {
        if !style.color.is_transparent() {
            let owned = text.to_owned();
            self.keep(DrawCommand::Text { text: owned, text_style: copy_text_style(style), pos });
        } else {
            assert(self.markup() =~= old(self).markup() + emitted(style.color, text_markup(text@, *style, pos)));
        }
    }

    /// The markup of every kept command, in drawing order.
    pub fn render(&self) -> (r: Vec<String>)
        ensures
            fragment_texts(r@) == self.markup(),
    {
        let mut r: Vec<String> = Vec::new();
        let mut i: usize = 0;
        while i < self.stack.len()
            invariant
                i <= self.stack@.len(),
                fragment_texts(r@) == commands_markup(self.stack@.take(i as int)),
            decreases self.stack@.len() - i,
        {
            let c = &self.stack[i];
            let f = c.render();
            let ghost before = r@;
            if !c.color_is_transparent() {
                r.push(f);
            }
            proof {
                let next = self.stack@.take(i as int + 1);
                assert(next.drop_last() =~= self.stack@.take(i as int));
                assert(next.last() == *c);
                assert(fragment_texts(r@) =~= fragment_texts(before) + emitted(c.color(), c.element()));
            }
            i = i + 1;
        }
        assert(self.stack@.take(self.stack@.len() as int) =~= self.stack@);
        r
    }
}

impl DrawCommand {
    /// Whether the command draws in a fully transparent color.
    pub fn color_is_transparent(&self) -> (r: bool)
        ensures
            r == self.color().spec_is_transparent(),
    {
        match self {
            DrawCommand::Pixel { color, .. } => color.is_transparent(),
            DrawCommand::Line { style, .. } => style.color.is_transparent(),
            DrawCommand::Rect { style, .. } => style.color.is_transparent(),
            DrawCommand::Path { style, .. } => style.color.is_transparent(),
            DrawCommand::Polygon { style, .. } => style.color.is_transparent(),
            DrawCommand::Circle { style, .. } => style.color.is_transparent(),
            DrawCommand::Text { text_style, .. } => text_style.color.is_transparent(),
        }
    }
}

/// The opening tag of a vector-graphics container of `size` (width, height).
pub open spec fn svg_open(size: (u32, u32)) -> Seq<char> {
    "<svg xmlns=\"http://www.w3.org/2000/svg\" width=\""@ + nat_text(size.0 as nat)
        + "\" height=\""@ + nat_text(size.1 as nat) + "\">"@
}

/// A container of `size` that holds the fragments, in order.
pub open spec fn svg_document(size: (u32, u32), fragments: Seq<Seq<char>>) -> Seq<char> {
    svg_open(size) + fragments.flatten() + "</svg>"@
}

/// The container of `size` that holds the fragments, in order.
pub fn write_svg(size: (u32, u32), fragments: &Vec<String>) -> (r: String)
    ensures
        r@ == svg_document(size, fragment_texts(fragments@)),
{
    let mut s = String::new();
    push_str(&mut s, "<svg xmlns=\"http://www.w3.org/2000/svg\" width=\"");
    push_nat(&mut s, size.0 as u64);
    push_str(&mut s, "\" height=\"");
    push_nat(&mut s, size.1 as u64);
    push_str(&mut s, "\">");
    assert(s@ =~= svg_open(size));
    let mut i: usize = 0;
    while i < fragments.len()
        invariant
            i <= fragments@.len(),
            s@ == svg_open(size) + fragment_texts(fragments@.take(i as int)).flatten(),
        decreases fragments@.len() - i,
    {
        push_str(&mut s, fragments[i].as_str());
        proof {
            let done = fragment_texts(fragments@.take(i as int));
            assert(fragment_texts(fragments@.take(i as int + 1)) =~= done.push(fragments@[i as int]@));
            done.lemma_flatten_push(fragments@[i as int]@);
        }
        i = i + 1;
    }
    assert(fragments@.take(fragments@.len() as int) =~= fragments@);
    push_str(&mut s, "</svg>");
    s
}

/// With no element, the document is the bare container of the requested size.
pub proof fn lemma_empty_drawing(size: (u32, u32))
    ensures
        svg_document(size, Seq::empty()) == svg_open(size) + "</svg>"@,
{
    assert(svg_document(size, Seq::empty()) =~= svg_open(size) + "</svg>"@);
}

impl Backend {
    /// The whole drawing: a container of the adapter's size holding every fragment.
    pub fn to_svg(&self) -> (r: String)
        ensures
            r@ == svg_document(self.size, self.markup()),
    {
        write_svg(self.size, &self.fragments)
    }
}

impl DioxusBackend {
    /// The whole drawing: a container of the adapter's size holding every kept
    /// command's element.
    pub fn to_svg(&self) -> (r: String)
        ensures
            r@ == svg_document(self.size, self.markup()),
    {
        let fragments = self.render();
        write_svg(self.size, &fragments)
    }
}

} // verus!
