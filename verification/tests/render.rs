use transit_map::model::{Color, Line, OutOfRange, Point, TransitMap};
use transit_map::render::{single_shape_demo, PathStyle};
use transit_map::text::{decimal_string, push_decimal, stroke_string};
use transit_map::utils::strip;

const EMPTY_DOCUMENT: &str = "<svg xmlns=\"http://www.w3.org/2000/svg\"/>";

fn path(d: &str, stroke: &str) -> String {
    format!(
        "<path d=\"{}\" fill=\"none\" stroke=\"{}\" stroke-linecap=\"round\" stroke-linejoin=\"round\" stroke-width=\"1\"/>",
        d, stroke
    )
}

fn map_of(lines: Vec<(Color, Vec<(i16, i16)>)>) -> TransitMap {
    let mut map = TransitMap::new();
    for (i, (color, points)) in lines.into_iter().enumerate() {
        map.push_line(Line::new(color, format!("line {}", i)));
        for (x, y) in points {
            map.push_point(i, Point::new(x, y)).unwrap();
        }
    }
    map
}

#[test]
fn point_and_color_keep_their_fields() {
    let p = Point::new(-7, 12);
    assert_eq!((p.x, p.y), (-7, 12));
    let c = Color::new(1, 2, 3);
    assert_eq!((c.r, c.g, c.b), (1, 2, 3));
}

#[test]
fn new_line_has_no_points() {
    let line = Line::new(Color::new(9, 8, 7), String::from("Central"));
    assert!(line.points().is_empty());
    assert_eq!(line.name(), "Central");
    assert_eq!(line.color(), Color::new(9, 8, 7));
    assert_eq!(line.color, Color::new(9, 8, 7));
}

#[test]
fn new_map_has_no_lines() {
    let map = TransitMap::new();
    assert_eq!(map.len(), 0);
}

#[test]
fn empty_map_gives_empty_fragment() {
    let map = TransitMap::new();
    assert_eq!(map.document(), EMPTY_DOCUMENT);
    assert_eq!(map.svg(), "");
    let mut doc = map.document();
    strip(&mut doc);
    assert_eq!(doc, "");
}

#[test]
fn push_line_appends_in_order() {
    let mut map = TransitMap::new();
    map.push_line(Line::new(Color::new(1, 1, 1), String::from("a")));
    map.push_line(Line::new(Color::new(2, 2, 2), String::from("b")));
    assert_eq!(map.len(), 2);
    assert_eq!(map.line(0).name(), "a");
    assert_eq!(map.line(1).name(), "b");
}

#[test]
fn push_point_appends_to_the_line_named() {
    let mut map = TransitMap::new();
    map.push_line(Line::new(Color::new(1, 1, 1), String::from("a")));
    map.push_line(Line::new(Color::new(2, 2, 2), String::from("b")));
    assert_eq!(map.push_point(1, Point::new(3, 4)), Ok(()));
    assert_eq!(map.push_point(1, Point::new(5, 6)), Ok(()));
    assert_eq!(map.push_point(0, Point::new(7, 8)), Ok(()));
    assert_eq!(map.line(0).points(), &vec![Point::new(7, 8)]);
    assert_eq!(map.line(1).points(), &vec![Point::new(3, 4), Point::new(5, 6)]);
    assert_eq!(map.line(1).name(), "b");
    assert_eq!(map.line(1).color(), Color::new(2, 2, 2));
}

#[test]
fn push_point_out_of_range_is_an_error() {
    let mut map = TransitMap::new();
    assert_eq!(
        map.push_point(0, Point::new(1, 1)),
        Err(OutOfRange { index: 0, lines: 0 })
    );
    map.push_line(Line::new(Color::new(1, 1, 1), String::from("a")));
    map.push_line(Line::new(Color::new(2, 2, 2), String::from("b")));
    assert_eq!(
        map.push_point(2, Point::new(1, 1)),
        Err(OutOfRange { index: 2, lines: 2 })
    );
    assert_eq!(
        map.push_point(3, Point::new(1, 1)),
        Err(OutOfRange { index: 3, lines: 2 })
    );
    assert_eq!(
        map.push_point(usize::MAX, Point::new(1, 1)),
        Err(OutOfRange { index: usize::MAX, lines: 2 })
    );
}

#[test]
fn push_point_out_of_range_leaves_the_map() {
    let mut map = map_of(vec![(Color::new(1, 2, 3), vec![(1, 1), (2, 2)])]);
    let before = map.document();
    assert!(map.push_point(1, Point::new(9, 9)).is_err());
    assert_eq!(map.len(), 1);
    assert_eq!(map.line(0).points().len(), 2);
    assert_eq!(map.document(), before);
}

#[test]
fn single_point_is_visited_twice() {
    let map = map_of(vec![(Color::new(255, 0, 0), vec![(5, 10)])]);
    let expected = format!("\n{}\n", path("M5,10 L5,10", "rgb(255, 0, 0)"));
    assert_eq!(map.svg(), expected);
}

#[test]
fn stroke_swaps_green_and_blue() {
    let map = map_of(vec![(Color::new(1, 2, 3), vec![(0, 0)])]);
    let expected = format!("\n{}\n", path("M0,0 L0,0", "rgb(1, 3, 2)"));
    assert_eq!(map.svg(), expected);
    let map = map_of(vec![(Color::new(255, 0, 0), vec![(0, 0)])]);
    assert!(map.svg().contains("stroke=\"rgb(255, 0, 0)\""));
    let map = map_of(vec![(Color::new(0, 255, 0), vec![(0, 0)])]);
    assert!(map.svg().contains("stroke=\"rgb(0, 0, 255)\""));
}

#[test]
fn three_points_give_move_and_three_lines() {
    let map = map_of(vec![(Color::new(0, 0, 0), vec![(0, 0), (1, 1), (2, 2)])]);
    let expected = format!("\n{}\n", path("M0,0 L0,0 L1,1 L2,2", "rgb(0, 0, 0)"));
    assert_eq!(map.svg(), expected);
}

#[test]
fn document_wraps_the_fragment() {
    let map = map_of(vec![(Color::new(0, 0, 0), vec![(0, 0), (1, 1), (2, 2)])]);
    let expected = format!(
        "<svg xmlns=\"http://www.w3.org/2000/svg\">\n{}\n</svg>",
        path("M0,0 L0,0 L1,1 L2,2", "rgb(0, 0, 0)")
    );
    assert_eq!(map.document(), expected);
    let mut doc = map.document();
    strip(&mut doc);
    assert_eq!(doc, map.svg());
}

#[test]
fn coordinates_at_the_ends_of_their_range() {
    let map = map_of(vec![(
        Color::new(10, 20, 30),
        vec![(-32768, 32767), (-1, 0), (100, -100)],
    )]);
    let expected = format!(
        "\n{}\n",
        path(
            "M-32768,32767 L-32768,32767 L-1,0 L100,-100",
            "rgb(10, 30, 20)"
        )
    );
    assert_eq!(map.svg(), expected);
}

#[test]
fn line_without_points_gives_no_path() {
    let map = map_of(vec![(Color::new(1, 1, 1), vec![])]);
    assert_eq!(map.document(), EMPTY_DOCUMENT);
    assert_eq!(map.svg(), "");
}

#[test]
fn lines_without_points_are_skipped_among_others() {
    let map = map_of(vec![
        (Color::new(1, 1, 1), vec![]),
        (Color::new(2, 2, 2), vec![(1, 2)]),
        (Color::new(3, 3, 3), vec![]),
        (Color::new(4, 4, 4), vec![(3, 4), (5, 6)]),
        (Color::new(5, 5, 5), vec![]),
    ]);
    let expected = format!(
        "\n{}\n{}\n",
        path("M1,2 L1,2", "rgb(2, 2, 2)"),
        path("M3,4 L3,4 L5,6", "rgb(4, 4, 4)")
    );
    assert_eq!(map.svg(), expected);
}

#[test]
fn paths_come_in_the_order_of_the_lines() {
    let map = map_of(vec![
        (Color::new(200, 0, 0), vec![(9, 9)]),
        (Color::new(100, 0, 0), vec![(1, 1)]),
    ]);
    let expected = format!(
        "\n{}\n{}\n",
        path("M9,9 L9,9", "rgb(200, 0, 0)"),
        path("M1,1 L1,1", "rgb(100, 0, 0)")
    );
    assert_eq!(map.svg(), expected);
}

#[test]
fn name_does_not_show_in_the_markup() {
    let mut map = TransitMap::new();
    map.push_line(Line::new(Color::new(0, 0, 0), String::from("</svg><svg>")));
    map.push_point(0, Point::new(1, 1)).unwrap();
    let expected = format!("\n{}\n", path("M1,1 L1,1", "rgb(0, 0, 0)"));
    assert_eq!(map.svg(), expected);
    assert_eq!(map.line(0).name(), "</svg><svg>");
}

#[test]
fn rendering_twice_gives_the_same() {
    let mut map = map_of(vec![(Color::new(7, 8, 9), vec![(1, 2), (3, 4)])]);
    let first = map.svg();
    assert_eq!(map.svg(), first);
    assert_eq!(map.line(0).points().len(), 2);
    map.push_point(0, Point::new(5, 6)).unwrap();
    let expected = format!("\n{}\n", path("M1,2 L1,2 L3,4 L5,6", "rgb(7, 9, 8)"));
    assert_eq!(map.svg(), expected);
}

#[test]
fn a_cloned_line_is_a_line_of_its_own() {
    let mut map = TransitMap::new();
    let line = Line::new(Color::new(1, 2, 3), String::from("a"));
    map.push_line(line.clone());
    map.push_line(line);
    map.push_point(0, Point::new(1, 1)).unwrap();
    assert_eq!(map.line(0).points().len(), 1);
    assert_eq!(map.line(1).points().len(), 0);
}

#[test]
fn color_field_can_be_set() {
    let mut line = Line::new(Color::new(1, 2, 3), String::from("a"));
    line.color = Color::new(4, 5, 6);
    let mut map = TransitMap::new();
    map.push_line(line);
    map.push_point(0, Point::new(0, 0)).unwrap();
    assert!(map.svg().contains("stroke=\"rgb(4, 6, 5)\""));
}

#[test]
fn fixed_style() {
    let style = PathStyle::fixed();
    assert_eq!(style.fill, "none");
    assert_eq!(style.line_cap, "round");
    assert_eq!(style.line_join, "round");
    assert_eq!(style.width, 1);
}

#[test]
fn decimal_of_one_two_and_three_digits() {
    assert_eq!(decimal_string(0), "0");
    assert_eq!(decimal_string(7), "7");
    assert_eq!(decimal_string(9), "9");
    assert_eq!(decimal_string(10), "10");
    assert_eq!(decimal_string(42), "42");
    assert_eq!(decimal_string(99), "99");
    assert_eq!(decimal_string(100), "100");
    assert_eq!(decimal_string(109), "109");
    assert_eq!(decimal_string(255), "255");
}

#[test]
fn decimal_agrees_with_std_on_every_value() {
    for n in 0..=255u8 {
        assert_eq!(decimal_string(n), n.to_string());
    }
}

#[test]
fn push_decimal_appends() {
    let mut out = String::from("n=");
    push_decimal(&mut out, 205);
    assert_eq!(out, "n=205");
    push_decimal(&mut out, 0);
    assert_eq!(out, "n=2050");
}

#[test]
fn stroke_string_is_red_blue_green() {
    assert_eq!(stroke_string(Color::new(255, 0, 0)), "rgb(255, 0, 0)");
    assert_eq!(stroke_string(Color::new(1, 2, 3)), "rgb(1, 3, 2)");
    assert_eq!(stroke_string(Color::new(0, 128, 64)), "rgb(0, 64, 128)");
}

#[test]
fn single_shape_demo_is_a_path_and_a_label() {
    let expected = "<svg xmlns=\"http://www.w3.org/2000/svg\">\n\
        <path d=\"\"/>\n\
        <text fill=\"black\" font-size=\"16\" x=\"0\" y=\"16\">\ntest\n</text>\n\
        </svg>";
    assert_eq!(single_shape_demo(), expected);
}

#[test]
fn single_shape_demo_stripped_is_its_two_elements() {
    let mut demo = single_shape_demo();
    strip(&mut demo);
    let expected = "\n<path d=\"\"/>\n\
        <text fill=\"black\" font-size=\"16\" x=\"0\" y=\"16\">\ntest\n</text>\n";
    assert_eq!(demo, expected);
}
