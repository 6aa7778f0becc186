//! From a map to markup: one path element for each line that has a point,
//! inside a document, and the fragment that is left of the document without
//! its root wrapper.

use vstd::prelude::*;
use svg::node::element::path::Data;
use svg::node::element::Path;
use crate::backend::{
    child_lines, data_commands, data_line_to, data_move_to, data_new, data_text, data_value,
    document_add, document_add_text, document_attributes, document_children, document_new,
    document_text, document_to_string, label_text, no_attributes, path_attributes, path_children,
    path_new, path_set, path_text, root_attributes, text_new, text_set, Segment,
};
use crate::model::{Line, LineView, Point, TransitMap};
use crate::text::{decimal, decimal_string, stroke_string, stroke_text};
use crate::utils::{
    close_marker, fold_ascii, lemma_first_marker_at, lemma_last_marker_at,
    lemma_strip_without_close_marker, lemma_tag_end_at, marker_at, open_marker, strip, stripped,
    wrapper_of,
};

verus! {

/// How every path is drawn, whatever its line.
pub struct PathStyle {
    /// The `fill` attribute.
    pub fill: &'static str,
    /// The `stroke-linecap` attribute.
    pub line_cap: &'static str,
    /// The `stroke-linejoin` attribute.
    pub line_join: &'static str,
    /// The `stroke-width` attribute, in units.
    pub width: u8,
}

impl PathStyle {
    /// No fill, round caps, round joins, one unit wide.
    pub fn fixed() -> (style: Self)
        ensures
            style.fill@ == "none"@,
            style.line_cap@ == "round"@,
            style.line_join@ == "round"@,
            style.width == 1,
    {
        PathStyle { fill: "none", line_cap: "round", line_join: "round", width: 1 }
    }
}

/// The commands that draw a line through `points`: a move to the first
/// point, then a line to every point, the first one included. No command
/// where there is no point.
pub open spec fn line_segments(points: Seq<Point>) -> Seq<Segment> {
    if points.len() == 0 {
        Seq::empty()
    } else {
        seq![Segment::MoveTo(points[0])] + Seq::new(
            points.len(),
            |i: int| Segment::LineTo(points[i]),
        )
    }
}

/// The attributes of the path element of `line`. The stroke colour is that
/// of the line; the rest is fixed.
pub open spec fn line_attributes(line: LineView) -> Map<Seq<char>, Seq<char>> {
    no_attributes().insert("fill"@, "none"@).insert("stroke"@, stroke_text(line.color)).insert(
        "stroke-linecap"@,
        "round"@,
    ).insert("stroke-linejoin"@, "round"@).insert("stroke-width"@, decimal(1)).insert(
        "d"@,
        data_text(line_segments(line.points)),
    )
}

/// The path elements of `lines` as text, in the order of the lines. A line
/// without points has none.
pub open spec fn path_texts(lines: Seq<LineView>) -> Seq<Seq<char>>
    decreases lines.len(),
{
    if lines.len() == 0 {
        Seq::empty()
    } else if lines.last().points.len() == 0 {
        path_texts(lines.drop_last())
    } else {
        path_texts(lines.drop_last()).push(path_text(line_attributes(lines.last())))
    }
}

/// What is left of a document with the given children when its root wrapper
/// is taken away: nothing where it has no child, else each child on a line
/// of its own and a line feed.
pub open spec fn fragment(children: Seq<Seq<char>>) -> Seq<char> {
    if children.len() == 0 {
        Seq::empty()
    } else {
        child_lines(children) + seq!['\n']
    }
}

/// The path data of a line through `points`.
fn line_data(points: &Vec<Point>) -> (data: Data)
    requires
        points.len() > 0,
    ensures
        data_commands(data) == line_segments(points@),
{
    let mut data = data_move_to(data_new(), points[0]);
    let mut i: usize = 0;
    while i < points.len()
        invariant
            0 < points.len(),
            i <= points.len(),
            data_commands(data) == seq![Segment::MoveTo(points@[0])] + Seq::new(
                i as nat,
                |k: int| Segment::LineTo(points@[k]),
            ),
        decreases points.len() - i,
    {
        data = data_line_to(data, points[i]);
        i += 1;
        assert(data_commands(data) =~= seq![Segment::MoveTo(points@[0])] + Seq::new(
            i as nat,
            |k: int| Segment::LineTo(points@[k]),
        ));
    }
    data
}

/// The path element of `line`, where it has a point.
fn line_path(line: &Line) -> (path: Option<Path>)
    ensures
        match path {
            Some(p) => line@.points.len() > 0 && path_attributes(p) == line_attributes(line@)
                && path_children(p).len() == 0,
            None => line@.points.len() == 0,
        },
{
    let points = line.points();
    if points.len() == 0 {
        return None;
    }
    let style = PathStyle::fixed();
    let stroke = stroke_string(line.color());
    let width = decimal_string(style.width);
    let d = data_value(line_data(points));
    let path = path_new();
    let path = path_set(path, "fill", style.fill);
    let path = path_set(path, "stroke", stroke.as_str());
    let path = path_set(path, "stroke-linecap", style.line_cap);
    let path = path_set(path, "stroke-linejoin", style.line_join);
    let path = path_set(path, "stroke-width", width.as_str());
    let path = path_set(path, "d", d.as_str());
    Some(path)
}

impl TransitMap {
    /// The map as a whole document: the root element, and in it one path
    /// element for each line that has a point, in the order of the lines.
    pub fn document(&self) -> (out: String)
        ensures
            out@ == document_text(path_texts(self@)),
    {
        let mut document = document_new();
        let mut i: usize = 0;
        while i < self.len()
            invariant
                i <= self@.len(),
                document_attributes(document) == root_attributes(),
                document_children(document) == path_texts(self@.subrange(0, i as int)),
            decreases self@.len() - i,
        {
            assert(self@.subrange(0, i + 1).drop_last() =~= self@.subrange(0, i as int));
            match line_path(self.line(i)) {
                Some(path) => {
                    document = document_add(document, path);
                },
                None => {},
            }
            i += 1;
        }
        assert(self@.subrange(0, i as int) =~= self@);
        document_to_string(&document)
    }

    /// The map as a fragment of markup: the document without its root
    /// wrapper. That is each path element on a line of its own, and nothing
    /// at all for a map in which no line has a point.
    pub fn svg(&self) -> (out: String)
        ensures
            out@ == stripped(document_text(path_texts(self@))),
            out@ == fragment(path_texts(self@)),
            self@.len() == 0 ==> out@ == Seq::<char>::empty(),
    {
        let mut out = self.document();
        strip(&mut out);
        proof {
            lemma_strip_document(path_texts(self@));
        }
        out
    }
}

/// The attributes of the label of the fixed document: at (0, 16), sixteen
/// units high, black.
pub open spec fn label_attributes() -> Map<Seq<char>, Seq<char>> {
    no_attributes().insert("x"@, decimal(0)).insert("y"@, decimal(16)).insert(
        "font-size"@,
        decimal(16),
    ).insert("fill"@, "black"@)
}

/// The children of the fixed document: a path without commands, then the
/// label `test`.
pub open spec fn single_shape_children() -> Seq<Seq<char>> {
    seq![
        path_text(no_attributes().insert("d"@, data_text(Seq::empty()))),
        label_text(label_attributes(), "test"@),
    ]
}

/// A fixed document: one path that draws nothing and the label `test`. It
/// comes as a whole document, with its root wrapper.
pub fn single_shape_demo() -> (out: String)
    ensures
        out@ == document_text(single_shape_children()),
{
    let d = data_value(data_new());
    let path = path_set(path_new(), "d", d.as_str());
    let x = decimal_string(0);
    let y = decimal_string(16);
    let size = decimal_string(16);
    let label = text_new("test");
    let label = text_set(label, "x", x.as_str());
    let label = text_set(label, "y", y.as_str());
    let label = text_set(label, "font-size", size.as_str());
    let label = text_set(label, "fill", "black");
    let document = document_add(document_new(), path);
    let document = document_add_text(document, label);
    assert(document_children(document) =~= single_shape_children());
    document_to_string(&document)
}

/// The commands of a line that has a point: one more than it has points. The
/// first is a move to the first point, and the command behind it a line to
/// that same point; then a line to each further point, in order.
pub proof fn lemma_line_segments(points: Seq<Point>)
    requires
        points.len() > 0,
    ensures
        line_segments(points).len() == points.len() + 1,
        line_segments(points)[0] == Segment::MoveTo(points[0]),
        line_segments(points)[1] == Segment::LineTo(points[0]),
        forall|i: int|
            0 <= i < points.len() ==> #[trigger] line_segments(points)[i + 1] == Segment::LineTo(
                points[i],
            ),
{
}

/// A document without children has no closing tag, so nothing is left of it
/// when it is stripped: a map without lines gives the empty fragment.
pub proof fn lemma_strip_empty_document()
    ensures
        stripped(document_text(Seq::empty())) == Seq::<char>::empty(),
{
    let s = document_text(Seq::empty());
    reveal_strlit("<svg xmlns=\"http://www.w3.org/2000/svg\"/>");
    assert forall|at: int| !marker_at(s, close_marker(), at) by {
        if marker_at(s, close_marker(), at) {
            assert(s[at + 0] == '<');
            assert(s[at + 1] == '/');
        }
    }
    lemma_strip_without_close_marker(s);
}

/// Stripping a document gives its fragment: nothing where it has no child,
/// else its children, each on a line of its own, and a line feed, whatever
/// the children hold.
pub proof fn lemma_strip_document(children: Seq<Seq<char>>)
    ensures
        stripped(document_text(children)) == fragment(children),
{
    if children.len() == 0 {
        lemma_strip_empty_document();
    } else {
        let head = "<svg xmlns=\"http://www.w3.org/2000/svg\">"@;
        let foot = "\n</svg>"@;
        let body = child_lines(children);
        let s = document_text(children);
        reveal_strlit("<svg xmlns=\"http://www.w3.org/2000/svg\">");
        reveal_strlit("\n</svg>");
        let n = body.len() as int;
        assert(s.len() == 40 + n + 7);
        assert forall|j: int| 0 <= j < 40 implies s[j] == head[j] by {}
        assert forall|j: int| 0 <= j < 7 implies s[40 + n + j] == foot[j] by {}
        assert(marker_at(s, open_marker(), 0)) by {
            assert forall|k: int| 0 <= k < 4 implies fold_ascii(#[trigger] s[0 + k])
                == open_marker()[k] by {}
        }
        lemma_first_marker_at(s, open_marker(), 0);
        lemma_tag_end_at(s, 0, 39);
        let close = 40 + n + 1;
        assert(marker_at(s, close_marker(), close)) by {
            assert forall|k: int| 0 <= k < 5 implies fold_ascii(#[trigger] s[close + k])
                == close_marker()[k] by {
                assert(s[40 + n + (k + 1)] == foot[k + 1]);
            }
        }
        assert forall|j: int| close < j implies !marker_at(s, close_marker(), j) by {
            if marker_at(s, close_marker(), j) {
                assert(j == close + 1);
                assert(s[j + 0] == foot[2]);
            }
        }
        lemma_last_marker_at(s, close_marker(), close);
        assert forall|j: int| close <= j < close + 5 implies s[j] != '>' by {
            assert(s[40 + n + (j - 40 - n)] == foot[j - 40 - n]);
        }
        assert(s[40 + n + 6] == foot[6]);
        lemma_tag_end_at(s, close, close + 5);
        assert(wrapper_of(s) == Some((39int, close, close + 5)));
        assert(stripped(s) =~= fragment(children));
    }
}

} // verus!
