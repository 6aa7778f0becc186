//! The map model: points, colours, lines, and the map that owns them.

use vstd::prelude::*;

verus! {

/// A place on the map, in whole units.
#[derive(Clone, Copy, Debug, PartialEq, Eq)]
pub struct Point {
    pub x: i16,
    pub y: i16,
}

impl Point {
    pub fn new(x: i16, y: i16) -> (point: Self)
        ensures
            point == (Point { x, y }),
    {
        Self { x, y }
    }
}

/// A colour by its red, green and blue channels.
#[derive(Clone, Copy, Debug, PartialEq, Eq)]
pub struct Color {
    pub r: u8,
    pub g: u8,
    pub b: u8,
}

impl Color {
    pub fn new(r: u8, g: u8, b: u8) -> (color: Self)
        ensures
            color == (Color { r, g, b }),
    {
        Self { r, g, b }
    }
}

/// A named, coloured polyline. Its points are joined in the order in which
/// they were pushed.
#[derive(Clone)]
pub struct Line {
    points: Vec<Point>,
    pub color: Color,
    name: String,
}

/// What a line is: its points in order, its colour and its name.
pub struct LineView {
    pub points: Seq<Point>,
    pub color: Color,
    pub name: Seq<char>,
}

/// `line` with `point` added behind its points.
pub open spec fn with_point(line: LineView, point: Point) -> LineView {
    LineView { points: line.points.push(point), ..line }
}

impl View for Line {
    type V = LineView;

    closed spec fn view(&self) -> LineView {
        LineView { points: self.points@, color: self.color, name: self.name@ }
    }
}

impl Line {
    /// A line without points.
    pub fn new(color: Color, name: String) -> (line: Self)
        ensures
            line@ == (LineView { points: Seq::empty(), color, name: name@ }),
    {
        Self { points: Vec::new(), color, name }
    }

    /// Adds `point` behind the points of the line.
    pub fn push(&mut self, point: Point)
        ensures
            final(self)@ == with_point(old(self)@, point),
    {
        self.points.push(point);
    }

    /// The points of the line, in order.
    pub fn points(&self) -> (points: &Vec<Point>)
        ensures
            points@ == self@.points,
    {
        &self.points
    }

    /// The label of the line.
    pub fn name(&self) -> (name: &String)
        ensures
            name@ == self@.name,
    {
        &self.name
    }

    /// The colour of the line.
    pub fn color(&self) -> (color: Color)
        ensures
            color == self@.color,
    {
        self.color
    }
}

/// The line index that `push_point` was given names no line of the map.
#[derive(Clone, Copy, Debug, PartialEq, Eq)]
pub struct OutOfRange {
    /// The index that was asked for.
    pub index: usize,
    /// The number of lines of the map.
    pub lines: usize,
}

/// A map: its lines in drawing order, a later line drawn over an earlier one.
pub struct TransitMap {
    lines: Vec<Line>,
}

impl View for TransitMap {
    type V = Seq<LineView>;

    closed spec fn view(&self) -> Seq<LineView> {
        Seq::new(self.lines@.len(), |i: int| self.lines@[i]@)
    }
}

impl TransitMap {
    /// A map without lines.
    pub fn new() -> (map: Self)
        ensures
            map@ == Seq::<LineView>::empty(),
    {
        let map = Self { lines: Vec::new() };
        assert(map@ =~= Seq::<LineView>::empty());
        map
    }

    /// Adds `line` behind the lines of the map.
    pub fn push_line(&mut self, line: Line)
        ensures
            final(self)@ == old(self)@.push(line@),
    {
        self.lines.push(line);
        assert(self@ =~= old(self)@.push(line@));
    }

    /// Adds `point` behind the points of the line with index `line`. Where
    /// the map has no such line, the map stays as it is and the index comes
    /// back in the error.
    pub fn push_point(&mut self, line: usize, point: Point) -> (pushed: Result<(), OutOfRange>)
        ensures
            match pushed {
                Ok(()) => line < old(self)@.len() && final(self)@ == old(self)@.update(
                    line as int,
                    with_point(old(self)@[line as int], point),
                ),
                Err(e) => line >= old(self)@.len() && final(self)@ == old(self)@ && e == (
                OutOfRange { index: line, lines: old(self)@.len() as usize }),
            },
    {
        if line >= self.lines.len() {
            return Err(OutOfRange { index: line, lines: self.lines.len() });
        }
        self.lines[line].push(point);
        assert(self@ =~= old(self)@.update(
            line as int,
            with_point(old(self)@[line as int], point),
        ));
        Ok(())
    }

    /// The number of lines of the map.
    pub fn len(&self) -> (n: usize)
        ensures
            n == self@.len(),
    {
        self.lines.len()
    }

    /// The line with index `i`.
    pub fn line(&self, i: usize) -> (line: &Line)
        requires
            i < self@.len(),
        ensures
            line@ == self@[i as int],
    {
        &self.lines[i]
    }
}

} // verus!
