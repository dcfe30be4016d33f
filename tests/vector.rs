use plotters_dioxus::backend::{Backend, DioxusBackend};
use plotters_dioxus::decimal::Decimal;
use plotters_dioxus::style::{Color, FontStyle, FontTransform, HPos, ShapeStyle, TextStyle, VPos};

fn color(r: u8, g: u8, b: u8, alpha: &str) -> Color {
    Color { r, g, b, alpha: Decimal::parse(alpha).unwrap() }
}

fn shape(c: Color, stroke_width: u32) -> ShapeStyle {
    ShapeStyle { color: c, stroke_width }
}

fn text_style(c: Color, h_pos: HPos, v_pos: VPos, style: FontStyle, transform: FontTransform) -> TextStyle {
    TextStyle {
        color: c,
        family: "sans-serif".to_string(),
        size: Decimal::parse("11.290322580645162").unwrap(),
        h_pos,
        v_pos,
        style,
        transform,
    }
}

#[test]
fn hex_color_is_exact() {
    assert_eq!(color(18, 52, 86, "1").to_hex(), "#123456");
    assert_eq!(color(255, 0, 171, "1").to_hex(), "#FF00AB");
    assert_eq!(color(0, 0, 0, "1").to_hex(), "#000000");
}

#[test]
fn opacity_is_written_as_given() {
    assert_eq!(color(1, 2, 3, "0.5").opacity_text(), "0.5");
    assert_eq!(color(1, 2, 3, "1").opacity_text(), "1");
    assert_eq!(color(1, 2, 3, "0.25").opacity_text(), "0.25");
}

#[test]
fn pixel_markup() {
    let mut b = Backend::new((10, 10));
    b.draw_pixel((3, -4), color(255, 0, 16, "1"));
    assert_eq!(b.fragments, vec![
        "<rect x=\"3\" y=\"-4\" width=\"1\" height=\"1\" fill=\"#FF0010\" stroke=\"none\"/>".to_string()
    ]);
}

#[test]
fn filled_rect_from_corners() {
    let mut b = Backend::new((100, 100));
    b.draw_rect((0, 0), (10, 20), &shape(color(18, 52, 86, "0.5"), 1), true);
    assert_eq!(b.fragments, vec![
        "<rect x=\"0\" y=\"0\" width=\"10\" height=\"20\" opacity=\"0.5\" fill=\"#123456\" stroke=\"none\"/>"
            .to_string()
    ]);
}

#[test]
fn outlined_rect_swaps_fill_and_stroke() {
    let mut b = Backend::new((100, 100));
    b.draw_rect((5, 7), (2, 3), &shape(color(18, 52, 86, "1"), 1), false);
    assert_eq!(b.fragments, vec![
        "<rect x=\"5\" y=\"7\" width=\"-3\" height=\"-4\" opacity=\"1\" fill=\"none\" stroke=\"#123456\"/>"
            .to_string()
    ]);
}

#[test]
fn line_markup() {
    let mut b = Backend::new((100, 100));
    b.draw_line((1, 2), (30, 40), &shape(color(0, 128, 255, "0.75"), 2));
    assert_eq!(b.fragments, vec![
        "<line x1=\"1\" y1=\"2\" x2=\"30\" y2=\"40\" stroke=\"#0080FF\" opacity=\"0.75\" stroke-width=\"2\"/>"
            .to_string()
    ]);
}

#[test]
fn path_and_polygon_list_points_in_order() {
    let mut b = Backend::new((100, 100));
    let pts = vec![(1, 2), (-3, 4), (5, 6)];
    b.draw_path(&pts, &shape(color(1, 2, 3, "1"), 3));
    b.fill_polygon(&pts, &shape(color(1, 2, 3, "0.5"), 3));
    assert_eq!(b.fragments, vec![
        "<path fill=\"none\" opacity=\"1\" stroke=\"#010203\" stroke-width=\"3\" points=\"1,2 -3,4 5,6 \"/>"
            .to_string(),
        "<polygon fill=\"#010203\" opacity=\"0.5\" points=\"1,2 -3,4 5,6 \"/>".to_string(),
    ]);
}

#[test]
fn empty_path_has_no_points() {
    let mut b = Backend::new((100, 100));
    b.draw_path(&vec![], &shape(color(1, 2, 3, "1"), 1));
    assert_eq!(b.fragments, vec![
        "<path fill=\"none\" opacity=\"1\" stroke=\"#010203\" stroke-width=\"1\" points=\"\"/>".to_string()
    ]);
}

#[test]
fn circles_filled_and_outlined() {
    let mut b = Backend::new((100, 100));
    b.draw_circle((50, 60), 7, &shape(color(16, 32, 48, "1"), 1), true);
    b.draw_circle((50, 60), 7, &shape(color(16, 32, 48, "1"), 1), false);
    assert_eq!(b.fragments, vec![
        "<circle cx=\"50\" cy=\"60\" r=\"7\" opacity=\"1\" fill=\"#102030\" stroke=\"none\" stroke-width=\"1\"/>"
            .to_string(),
        "<circle cx=\"50\" cy=\"60\" r=\"7\" opacity=\"1\" fill=\"none\" stroke=\"#102030\" stroke-width=\"1\"/>"
            .to_string(),
    ]);
}

#[test]
fn centered_text_at_top() {
    let mut b = Backend::new((100, 100));
    let st = text_style(color(0, 0, 0, "1"), HPos::Center, VPos::Top, FontStyle::Normal, FontTransform::Upright);
    b.draw_text("Hi", &st, (5, 6));
    assert_eq!(b.fragments, vec![
        "<text x=\"5\" y=\"6\" dy=\"0.76em\" text-anchor=\"middle\" font-family=\"sans-serif\" \
         font-size=\"11.290322580645162\" opacity=\"1\" fill=\"#000000\" transform=\"\" \
         font-style=\"normal\" font-weight=\"\">Hi</text>"
            .to_string()
    ]);
    assert!(b.fragments[0].contains("text-anchor=\"middle\""));
    assert!(b.fragments[0].contains("dy=\"0.76em\""));
}

#[test]
fn text_anchors_and_baselines() {
    let cases = [
        (HPos::Left, VPos::Center, "text-anchor=\"start\"", "dy=\"0.5ex\""),
        (HPos::Right, VPos::Bottom, "text-anchor=\"end\"", "dy=\"-0.5ex\""),
    ];
    for (h, v, anchor, dy) in cases {
        let mut b = Backend::new((100, 100));
        let st = text_style(color(0, 0, 0, "1"), h, v, FontStyle::Italic, FontTransform::Upright);
        b.draw_text("a", &st, (0, 0));
        assert!(b.fragments[0].contains(anchor));
        assert!(b.fragments[0].contains(dy));
        assert!(b.fragments[0].contains("font-style=\"italic\""));
    }
}

#[test]
fn bold_rotated_text() {
    let mut b = Backend::new((100, 100));
    let st = text_style(color(0, 0, 0, "1"), HPos::Left, VPos::Top, FontStyle::Bold, FontTransform::Rotate270);
    b.draw_text("Count", &st, (12, -3));
    let f = &b.fragments[0];
    assert!(f.contains("transform=\"rotate(270, 12, -3)\""));
    assert!(f.contains("font-style=\"\""));
    assert!(f.contains("font-weight=\"bold\""));
}

#[test]
fn text_is_escaped() {
    let mut b = Backend::new((100, 100));
    let mut st = text_style(color(0, 0, 0, "1"), HPos::Left, VPos::Top, FontStyle::Oblique, FontTransform::Rotate90);
    st.family = "a\"b".to_string();
    b.draw_text("x<y & z>w", &st, (1, 2));
    let f = &b.fragments[0];
    assert!(f.contains("font-family=\"a&quot;b\""));
    assert!(f.ends_with(">x&lt;y &amp; z&gt;w</text>"));
    assert!(f.contains("transform=\"rotate(90, 1, 2)\""));
    assert!(f.contains("font-style=\"oblique\""));
}

#[test]
fn transparent_commands_draw_nothing() {
    let clear = color(9, 9, 9, "0");
    let st = text_style(clear, HPos::Left, VPos::Top, FontStyle::Normal, FontTransform::Upright);
    let mut b = Backend::new((10, 10));
    let mut d = DioxusBackend::new((10, 10));
    b.draw_pixel((1, 1), clear);
    b.draw_line((1, 1), (2, 2), &shape(clear, 1));
    b.draw_rect((1, 1), (2, 2), &shape(clear, 1), true);
    b.draw_path(&vec![(1, 1)], &shape(clear, 1));
    b.fill_polygon(&vec![(1, 1)], &shape(clear, 1));
    b.draw_circle((1, 1), 2, &shape(clear, 1), false);
    b.draw_text("t", &st, (1, 1));
    d.draw_pixel((1, 1), clear);
    d.draw_line((1, 1), (2, 2), &shape(clear, 1));
    d.draw_rect((1, 1), (2, 2), &shape(clear, 1), true);
    d.draw_path(&vec![(1, 1)], &shape(clear, 1));
    d.fill_polygon(&vec![(1, 1)], &shape(clear, 1));
    d.draw_circle((1, 1), 2, &shape(clear, 1), false);
    d.draw_text("t", &st, (1, 1));
    assert!(b.fragments.is_empty());
    assert!(d.stack.is_empty());
    assert!(d.render().is_empty());
    let negative_zero = Color { r: 1, g: 1, b: 1, alpha: Decimal::parse("-0").unwrap() };
    b.draw_pixel((0, 0), negative_zero);
    assert!(b.fragments.is_empty());
}

#[test]
fn empty_drawing_is_an_empty_container() {
    let b = Backend::new((400, 300));
    assert_eq!(b.get_size(), (400, 300));
    assert_eq!(b.to_svg(), "<svg xmlns=\"http://www.w3.org/2000/svg\" width=\"400\" height=\"300\"></svg>");
    let d = DioxusBackend::new((400, 300));
    assert_eq!(d.get_size(), (400, 300));
    assert_eq!(d.to_svg(), "<svg xmlns=\"http://www.w3.org/2000/svg\" width=\"400\" height=\"300\"></svg>");
}

#[test]
fn both_adapters_agree_and_keep_order() {
    let c = color(200, 100, 50, "0.5");
    let st = text_style(c, HPos::Right, VPos::Center, FontStyle::Normal, FontTransform::Rotate180);
    let mut b = Backend::new((50, 40));
    let mut d = DioxusBackend::new((50, 40));
    b.draw_rect((0, 0), (50, 40), &shape(c, 1), true);
    b.draw_pixel((1, 2), color(0, 0, 0, "0"));
    b.draw_line((0, 0), (9, 9), &shape(c, 4));
    b.draw_text("z", &st, (3, 4));
    d.draw_rect((0, 0), (50, 40), &shape(c, 1), true);
    d.draw_pixel((1, 2), color(0, 0, 0, "0"));
    d.draw_line((0, 0), (9, 9), &shape(c, 4));
    d.draw_text("z", &st, (3, 4));
    assert_eq!(b.fragments.len(), 3);
    assert!(b.fragments[0].starts_with("<rect"));
    assert!(b.fragments[1].starts_with("<line"));
    assert!(b.fragments[2].starts_with("<text"));
    assert_eq!(d.render(), b.fragments);
    assert_eq!(d.to_svg(), b.to_svg());
    let svg = b.to_svg();
    assert!(svg.starts_with("<svg xmlns=\"http://www.w3.org/2000/svg\" width=\"50\" height=\"40\"><rect"));
    assert!(svg.ends_with("</text></svg>"));
}

#[test]
fn extreme_coordinates() {
    let mut b = Backend::new((1, 1));
    b.draw_rect((i32::MIN, i32::MIN), (i32::MAX, i32::MAX), &shape(color(1, 1, 1, "1"), u32::MAX), false);
    b.draw_line((i32::MIN, 0), (i32::MAX, 0), &shape(color(1, 1, 1, "1"), u32::MAX));
    assert!(b.fragments[0].contains("x=\"-2147483648\""));
    assert!(b.fragments[0].contains("width=\"4294967295\""));
    assert!(b.fragments[1].contains("stroke-width=\"4294967295\""));
}
