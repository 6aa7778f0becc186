//! The `svg` crate as this library uses it: path data, path elements and the
//! document that holds them. Nothing in this file is proved. Each contract
//! says what the crate's code does, over the names declared here.

use vstd::prelude::*;
use svg::node::element::path::{Command, Data};
use svg::node::element::{Element, Path, Text};
use svg::node::Value;
use svg::Document;
use crate::model::Point;

verus! {

/// One drawing command of a path, in absolute coordinates.
pub enum Segment {
    /// Start a new subpath at the point.
    MoveTo(Point),
    /// Draw a straight line to the point.
    LineTo(Point),
}

/// `svg::node::element::path::Data`, a list of drawing commands.
#[verifier::external_type_specification]
#[verifier::external_body]
pub struct ExData(Data);

/// `svg::node::element::path::Command`, one command of a `Data`. A `Data`
/// hands its commands out as a slice of them.
#[verifier::external_type_specification]
#[verifier::external_body]
pub struct ExCommand(Command);

/// `svg::node::element::Element`, the name, attributes and children that a
/// path element and a document each hold.
#[verifier::external_type_specification]
#[verifier::external_body]
pub struct ExElement(Element);

/// `svg::node::element::Path`, a `path` element.
#[verifier::external_type_specification]
#[verifier::external_body]
pub struct ExPath(Path);

/// `svg::node::element::Text`, a `text` element.
#[verifier::external_type_specification]
#[verifier::external_body]
pub struct ExText(Text);

/// `svg::Document`, the root `svg` element.
#[verifier::external_type_specification]
#[verifier::external_body]
pub struct ExDocument(Document);

/// The commands that a `Data` holds, in order.
pub uninterp spec fn data_commands(data: Data) -> Seq<Segment>;

/// The text that `Value::from` makes of a `Data` with the given commands:
/// the value of a path's `d` attribute.
pub uninterp spec fn data_text(commands: Seq<Segment>) -> Seq<char>;

/// The attributes of a path element, by name.
pub uninterp spec fn path_attributes(path: Path) -> Map<Seq<char>, Seq<char>>;

/// The child nodes of a path element, each as its text.
pub uninterp spec fn path_children(path: Path) -> Seq<Seq<char>>;

/// The text that a path element without children is written as inside a
/// document, given its attributes.
pub uninterp spec fn path_text(attributes: Map<Seq<char>, Seq<char>>) -> Seq<char>;

/// The attributes of a text element, by name.
pub uninterp spec fn text_attributes(text: Text) -> Map<Seq<char>, Seq<char>>;

/// The child nodes of a text element in order. Each is a run of characters,
/// given as it was handed in.
pub uninterp spec fn text_children(text: Text) -> Seq<Seq<char>>;

/// The text that a text element with one run of characters is written as
/// inside a document, given its attributes and the run.
pub uninterp spec fn label_text(attributes: Map<Seq<char>, Seq<char>>, content: Seq<char>) -> Seq<char>;

/// The attributes of the root element, by name.
pub uninterp spec fn document_attributes(document: Document) -> Map<Seq<char>, Seq<char>>;

/// The child nodes of the root element in order, each as its text.
pub uninterp spec fn document_children(document: Document) -> Seq<Seq<char>>;

/// An element without attributes.
pub open spec fn no_attributes() -> Map<Seq<char>, Seq<char>> {
    Map::empty()
}

/// The attributes of a new document: the SVG namespace and nothing else.
pub open spec fn root_attributes() -> Map<Seq<char>, Seq<char>> {
    Map::empty().insert("xmlns"@, "http://www.w3.org/2000/svg"@)
}

/// Each child on a line of its own: a line feed, then the child's text.
pub open spec fn child_lines(children: Seq<Seq<char>>) -> Seq<char>
    decreases children.len(),
{
    if children.len() == 0 {
        Seq::empty()
    } else {
        child_lines(children.drop_last()) + seq!['\n'] + children.last()
    }
}

/// The text of a document that has the attributes of a new one and the given
/// children: a single self-closing tag where it has no child, else the
/// opening tag, the children line by line, a line feed and the closing tag.
pub open spec fn document_text(children: Seq<Seq<char>>) -> Seq<char> {
    if children.len() == 0 {
        "<svg xmlns=\"http://www.w3.org/2000/svg\"/>"@
    } else {
        "<svg xmlns=\"http://www.w3.org/2000/svg\">"@ + child_lines(children) + "\n</svg>"@
    }
}

/// `Data::new`: path data without commands.
#[verifier::external_body]
pub(crate) fn data_new() -> (data: Data)
    ensures
        data_commands(data) == Seq::<Segment>::empty(),
{
    Data::new()
}

/// `Data::move_to` with a pair of coordinates: adds one absolute move
/// command behind the commands that the data holds.
#[verifier::external_body]
pub(crate) fn data_move_to(data: Data, to: Point) -> (out: Data)
    ensures
        data_commands(out) == data_commands(data).push(Segment::MoveTo(to)),
{
    data.move_to((to.x, to.y))
}

/// `Data::line_to` with a pair of coordinates: adds one absolute line
/// command behind the commands that the data holds.
#[verifier::external_body]
pub(crate) fn data_line_to(data: Data, to: Point) -> (out: Data)
    ensures
        data_commands(out) == data_commands(data).push(Segment::LineTo(to)),
{
    data.line_to((to.x, to.y))
}

/// `Value::from` on a `Data`: the attribute text of the commands. The text
/// depends on the commands alone.
#[verifier::external_body]
pub(crate) fn data_value(data: Data) -> (text: String)
    ensures
        text@ == data_text(data_commands(data)),
{
    String::from(Value::from(data))
}

/// `Path::new`: a path element without attributes and without children.
#[verifier::external_body]
pub(crate) fn path_new() -> (path: Path)
    ensures
        path_attributes(path) == no_attributes(),
        path_children(path) == Seq::<Seq<char>>::empty(),
{
    Path::new()
}

/// `Path::set` with a text value: the attribute `name` now has that value,
/// whether or not it had one; the other attributes and the children stay.
#[verifier::external_body]
pub(crate) fn path_set(path: Path, name: &str, value: &str) -> (out: Path)
    ensures
        path_attributes(out) == path_attributes(path).insert(name@, value@),
        path_children(out) == path_children(path),
{
    path.set(name, value)
}

/// `Text::new`: a text element without attributes, whose one child is the
/// run of characters `content`.
#[verifier::external_body]
pub(crate) fn text_new(content: &str) -> (text: Text)
    ensures
        text_attributes(text) == no_attributes(),
        text_children(text) == seq![content@],
{
    Text::new(content)
}

/// `Text::set` with a text value: the attribute `name` now has that value,
/// whether or not it had one; the other attributes and the children stay.
#[verifier::external_body]
pub(crate) fn text_set(text: Text, name: &str, value: &str) -> (out: Text)
    ensures
        text_attributes(out) == text_attributes(text).insert(name@, value@),
        text_children(out) == text_children(text),
{
    text.set(name, value)
}

/// `Document::new`: a root element that has the SVG namespace as its one
/// attribute, and no children.
#[verifier::external_body]
pub(crate) fn document_new() -> (document: Document)
    ensures
        document_attributes(document) == root_attributes(),
        document_children(document) == Seq::<Seq<char>>::empty(),
{
    Document::new()
}

/// `Document::add` with a path element that has no children: the path
/// becomes the last child of the root element, whose attributes stay.
#[verifier::external_body]
pub(crate) fn document_add(document: Document, path: Path) -> (out: Document)
    requires
        path_children(path).len() == 0,
    ensures
        document_attributes(out) == document_attributes(document),
        document_children(out) == document_children(document).push(path_text(path_attributes(path))),
{
    document.add(path)
}

/// `Document::add` with a text element that holds one run of characters:
/// the element becomes the last child of the root element, whose attributes
/// stay.
#[verifier::external_body]
pub(crate) fn document_add_text(document: Document, text: Text) -> (out: Document)
    requires
        text_children(text).len() == 1,
    ensures
        document_attributes(out) == document_attributes(document),
        document_children(out) == document_children(document).push(label_text(text_attributes(text), text_children(text)[0])),
{
    document.add(text)
}

/// `to_string` on a document that has the attributes of a new one: the
/// root element with each child on a line of its own.
#[verifier::external_body]
pub(crate) fn document_to_string(document: &Document) -> (text: String)
    requires
        document_attributes(*document) == root_attributes(),
    ensures
        text@ == document_text(document_children(*document)),
{
    document.to_string()
}

} // verus!
