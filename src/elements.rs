//! Documents and the typed handles to the elements they hold.
//!
//! A [`Document`] owns every element's record; an [`Element`] is a stable
//! index into it, tagged with the element's kind. Copying one element's
//! record into another ([`Element::like`]) copies values: no two handles
//! share storage.

use vstd::prelude::*;
use vstd::string::StringExecFns;
use core::marker::PhantomData;
use crate::anchor::{Anchor, Shape};
use crate::arrow::{
    elbow_arrow, elbow_arrow_spec, straight_arrow, straight_arrow_spec, ARROW_X, ARROW_Y,
};
use crate::attributes::{model_text, Attribute, AttributeModel, Attributes};
use crate::keys;
use crate::path::{segments_text, Path, PathBuilder, point_of};
use crate::scalar::{div_toward_zero, half, in_range, Scalar, Vector2};
use crate::style::{Stroke, Style};
use crate::text::{hex_decodable, hex_decoded, lower_hex, parse_number, parse_scalar};

verus! {

/// The kind of a markup element.
#[derive(Clone, Copy, Debug, PartialEq, Eq, Structural)]
pub enum Kind {
    Circle,
    Rectangle,
    Line,
    Marker,
    Path,
}

/// The markup tag of each kind.
pub open spec fn kind_tag(kind: Kind) -> Seq<char> {
    match kind {
        Kind::Circle => "circle"@,
        Kind::Rectangle => "rect"@,
        Kind::Line => "line"@,
        Kind::Marker => "marker"@,
        Kind::Path => "path"@,
    }
}

impl Kind {
    /// The markup tag of elements of this kind.
    pub fn tag(&self) -> (r: &'static str)
        ensures
            r@ == kind_tag(*self),
    {
        match *self {
            Kind::Circle => "circle",
            Kind::Rectangle => "rect",
            Kind::Line => "line",
            Kind::Marker => "marker",
            Kind::Path => "path",
        }
    }
}

/// One markup element: its kind and its attributes.
#[derive(Debug)]
pub struct Record {
    pub kind: Kind,
    pub attributes: Attributes,
}

/// What a record is, for contracts.
pub struct RecordModel {
    pub kind: Kind,
    pub attributes: Map<Seq<char>, AttributeModel>,
}

impl Record {
    pub open spec fn wf(&self) -> bool {
        self.attributes.wf()
    }

    pub open spec fn model(&self) -> RecordModel {
        RecordModel { kind: self.kind, attributes: self.attributes@ }
    }

    /// A copy of the record.
    pub fn copy(&self) -> (r: Record)
        requires
            self.wf(),
        ensures
            r.wf(),
            r.model() == self.model(),
    {
        Record { kind: self.kind, attributes: self.attributes.copy() }
    }
}

/// A top-level element of a document, with the elements nested in it.
#[derive(Debug)]
pub struct Node {
    pub record: Record,
    pub children: Vec<Record>,
}

/// What a node is, for contracts.
pub struct NodeModel {
    pub record: RecordModel,
    pub children: Seq<RecordModel>,
}

impl Node {
    pub open spec fn wf(&self) -> bool {
        &&& self.record.wf()
        &&& forall|i: int| 0 <= i < self.children@.len() ==> (#[trigger] self.children@[i]).wf()
    }

    pub open spec fn model(&self) -> NodeModel {
        NodeModel {
            record: self.record.model(),
            children: self.children@.map_values(|c: Record| c.model()),
        }
    }

    /// A copy of the node and its children.
    pub fn copy(&self) -> (r: Node)
        requires
            self.wf(),
        ensures
            r.wf(),
            r.model() == self.model(),
    {
        let mut children: Vec<Record> = Vec::new();
        let mut i: usize = 0;
        while i < self.children.len()
            invariant
                self.wf(),
                i <= self.children@.len(),
                children@.len() == i,
                forall|j: int| 0 <= j < i ==> (#[trigger] children@[j]).wf()
                    && children@[j].model() == self.children@[j].model(),
            decreases self.children@.len() - i,
        {
            children.push(self.children[i].copy());
            i = i + 1;
        }
        let r = Node { record: self.record.copy(), children };
        assert(r.model().children =~= self.model().children);
        r
    }
}

/// The elements of a drawing, in the order they were added.
pub struct Document {
    nodes: Vec<Node>,
}

impl Default for Document {
    fn default() -> (r: Document)
        ensures
            r.wf(),
            r@.len() == 0,
    {
        Document { nodes: Vec::new() }
    }
}

impl View for Document {
    type V = Seq<NodeModel>;

    closed spec fn view(&self) -> Seq<NodeModel> {
        self.nodes@.map_values(|n: Node| n.model())
    }
}

impl Document {
    pub closed spec fn wf(&self) -> bool {
        forall|i: int| 0 <= i < self.nodes@.len() ==> (#[trigger] self.nodes@[i]).wf()
    }

    /// An empty document.
    pub fn new() -> (r: Document)
        ensures
            r.wf(),
            r@.len() == 0,
    {
        Document::default()
    }

    /// Adds an element of `kind` without attributes, and returns its handle.
    fn add<T>(&mut self, kind: Kind) -> (r: Element<T>)
        requires
            old(self).wf(),
        ensures
            final(self).wf(),
            final(self)@ == old(self)@.push(
                NodeModel {
                    record: RecordModel { kind, attributes: Map::empty() },
                    children: Seq::empty(),
                },
            ),
            r.index == old(self)@.len(),
    {
        let node = Node { record: Record { kind, attributes: Attributes::new() }, children: Vec::new() };
        assert(node.model().children =~= Seq::<RecordModel>::empty());
        let ghost before = self.nodes@;
        self.nodes.push(node);
        assert(self@ =~= old(self)@.push(node.model()));
        proof {
            assert forall|i: int| 0 <= i < self.nodes@.len() implies (#[trigger] self.nodes@[i]).wf() by {
                if i < before.len() {
                    assert(self.nodes@[i] == before[i]);
                }
            }
        }
        Element { index: self.nodes.len() - 1, ty: PhantomData }
    }

    pub fn circle(&mut self) -> (r: Element<Circle>)
        requires
            old(self).wf(),
        ensures
            final(self).wf(),
            final(self)@ == old(self)@.push(empty_node(Kind::Circle)),
            r.index == old(self)@.len(),
    {
        self.add(Kind::Circle)
    }

    pub fn line(&mut self) -> (r: Element<Line>)
        requires
            old(self).wf(),
        ensures
            final(self).wf(),
            final(self)@ == old(self)@.push(empty_node(Kind::Line)),
            r.index == old(self)@.len(),
    {
        self.add(Kind::Line)
    }

    pub fn marker(&mut self) -> (r: Element<Marker>)
        requires
            old(self).wf(),
        ensures
            final(self).wf(),
            final(self)@ == old(self)@.push(empty_node(Kind::Marker)),
            r.index == old(self)@.len(),
    {
        self.add(Kind::Marker)
    }

    pub fn rectangle(&mut self) -> (r: Element<Rectangle>)
        requires
            old(self).wf(),
        ensures
            final(self).wf(),
            final(self)@ == old(self)@.push(empty_node(Kind::Rectangle)),
            r.index == old(self)@.len(),
    {
        self.add(Kind::Rectangle)
    }

    pub fn path(&mut self) -> (r: Element<Path>)
        requires
            old(self).wf(),
        ensures
            final(self).wf(),
            final(self)@ == old(self)@.push(empty_node(Kind::Path)),
            r.index == old(self)@.len(),
    {
        self.add(Kind::Path)
    }

    /// The elements, in the order they were added.
    pub fn finalize(self) -> (r: Vec<Node>)
        requires
            self.wf(),
        ensures
            r@.map_values(|n: Node| n.model()) == self@,
            forall|i: int| 0 <= i < r@.len() ==> (#[trigger] r@[i]).wf(),
    {
        self.nodes
    }

    /// The attributes of element `i`.
    pub fn attributes(&self, i: usize) -> (r: &Attributes)
        requires
            i < self@.len(),
            self.wf(),
        ensures
            r.wf(),
            r@ == self@[i as int].record.attributes,
    {
        &self.nodes[i].record.attributes
    }

    /// Replaces node `i`.
    fn replace(&mut self, i: usize, node: Node)
        requires
            old(self).wf(),
            node.wf(),
            i < old(self)@.len(),
        ensures
            final(self).wf(),
            final(self)@ == old(self)@.update(i as int, node.model()),
    {
        let ghost before = self.nodes@;
        self.nodes.set(i, node);
        assert(self@ =~= old(self)@.update(i as int, node.model()));
        proof {
            assert forall|j: int| 0 <= j < self.nodes@.len() implies (#[trigger] self.nodes@[j]).wf() by {
                if j != i {
                    assert(self.nodes@[j] == before[j]);
                }
            }
        }
    }

    /// Takes node `i` out, leaving an empty one in its place.
    fn take(&mut self, i: usize) -> (r: Node)
        requires
            old(self).wf(),
            i < old(self)@.len(),
        ensures
            final(self).wf(),
            final(self)@.len() == old(self)@.len(),
            forall|j: int| 0 <= j < old(self)@.len() && j != i ==> final(self)@[j] == old(self)@[j],
            r.wf(),
            r.model() == old(self)@[i as int],
    {
        let ghost before = self.nodes@;
        let empty = Node { record: Record { kind: Kind::Path, attributes: Attributes::new() }, children: Vec::new() };
        let r = self.nodes.remove(i);
        self.nodes.insert(i, empty);
        assert(self.nodes@ =~= before.update(i as int, empty));
        proof {
            assert forall|j: int| 0 <= j < self.nodes@.len() implies (#[trigger] self.nodes@[j]).wf() by {
                if j != i {
                    assert(self.nodes@[j] == before[j]);
                }
            }
        }
        assert(r == before[i as int]);
        r
    }
}

/// A fresh element of `kind`: no attributes, no children.
pub open spec fn empty_node(kind: Kind) -> NodeModel {
    NodeModel { record: RecordModel { kind, attributes: Map::empty() }, children: Seq::empty() }
}

/// The number under `key` of element `i`: a scalar as it is, text read as
/// decimal pixels (see [`parse_number`]); zero when the key is missing or the
/// text is not a number.
pub open spec fn scalar_or_zero(doc: Seq<NodeModel>, i: int, key: Seq<char>) -> Scalar {
    let m = doc[i].record.attributes;
    if m.contains_key(key) {
        match m[key] {
            AttributeModel::Scalar(v) => v as i64,
            AttributeModel::Text(t) => match parse_number(t) {
                Some(v) => v,
                None => 0,
            },
        }
    } else {
        0
    }
}

/// The attributes of element `i` with `key` set to the scalar `v`.
pub open spec fn set_scalar(doc: Seq<NodeModel>, i: int, key: Seq<char>, v: Scalar) -> Map<
    Seq<char>,
    AttributeModel,
> {
    doc[i].record.attributes.insert(key, AttributeModel::Scalar(v as int))
}

/// `doc` with the attributes of element `i` replaced by `m`.
pub open spec fn with_attributes(
    doc: Seq<NodeModel>,
    i: int,
    m: Map<Seq<char>, AttributeModel>,
) -> Seq<NodeModel> {
    doc.update(i, NodeModel { record: RecordModel { attributes: m, ..doc[i].record }, ..doc[i] })
}

/// A circle element.
pub struct Circle;

/// A rectangle element.
pub struct Rectangle;

/// A straight line element.
pub struct Line;

/// A marker definition: a glyph drawn at the vertices of lines.
pub struct Marker;

/// A handle to the element at `index` of a document, of kind `T`.
pub struct Element<T> {
    pub index: usize,
    pub ty: PhantomData<T>,
}

impl<T> Clone for Element<T> {
    fn clone(&self) -> (r: Self)
        ensures
            r.index == self.index,
    {
        Element { index: self.index, ty: PhantomData }
    }
}

impl<T> Element<T> {
    /// The handle to element `index`.
    pub fn new(index: usize) -> (r: Element<T>)
        ensures
            r.index == index,
    {
        Element { index, ty: PhantomData }
    }

    /// Makes this element's record and children a copy of `other`'s.
    pub fn like(self, doc: &mut Document, other: &Element<T>) -> (r: Element<T>)
        requires
            old(doc).wf(),
            self.index < old(doc)@.len(),
            other.index < old(doc)@.len(),
        ensures
            final(doc).wf(),
            final(doc)@ == old(doc)@.update(self.index as int, old(doc)@[other.index as int]),
            r.index == self.index,
    {
        let copy = doc.nodes[other.index].copy();
        doc.replace(self.index, copy);
        self
    }

    /// Nests `child` in this element.
    pub fn add_child(&self, doc: &mut Document, child: Record)
        requires
            old(doc).wf(),
            child.wf(),
            self.index < old(doc)@.len(),
        ensures
            final(doc).wf(),
            final(doc)@ == old(doc)@.update(
                self.index as int,
                NodeModel {
                    children: old(doc)@[self.index as int].children.push(child.model()),
                    ..old(doc)@[self.index as int]
                },
            ),
    {
        let mut node = doc.take(self.index);
        let ghost before = node;
        node.children.push(child);
        assert(node.model().children =~= before.model().children.push(child.model()));
        proof {
            assert forall|i: int| 0 <= i < node.children@.len() implies (#[trigger] node.children@[i]).wf() by {
                if i < before.children@.len() {
                    assert(node.children@[i] == before.children@[i]);
                }
            }
        }
        doc.replace(self.index, node);
        assert(doc@ =~= old(doc)@.update(
            self.index as int,
            NodeModel {
                children: old(doc)@[self.index as int].children.push(child.model()),
                ..old(doc)@[self.index as int]
            },
        ));
    }

    /// Sets the attribute `key` to `value`.
    pub fn insert(&self, doc: &mut Document, key: &str, value: Attribute)
        requires
            old(doc).wf(),
            self.index < old(doc)@.len(),
        ensures
            final(doc).wf(),
            final(doc)@ == with_attributes(
                old(doc)@,
                self.index as int,
                old(doc)@[self.index as int].record.attributes.insert(key@, value.model()),
            ),
    {
        let mut node = doc.take(self.index);
        node.record.attributes.insert(key, value);
        doc.replace(self.index, node);
        assert(doc@ =~= with_attributes(
            old(doc)@,
            self.index as int,
            old(doc)@[self.index as int].record.attributes.insert(key@, value.model()),
        ));
    }

    /// Sets every attribute of `attributes`.
    pub fn insert_multi(&self, doc: &mut Document, attributes: Attributes)
        requires
            old(doc).wf(),
            attributes.wf(),
            self.index < old(doc)@.len(),
        ensures
            final(doc).wf(),
            final(doc)@ == with_attributes(
                old(doc)@,
                self.index as int,
                old(doc)@[self.index as int].record.attributes.union_prefer_right(attributes@),
            ),
    {
        let mut node = doc.take(self.index);
        node.record.attributes.extend(attributes);
        doc.replace(self.index, node);
        assert(doc@ =~= with_attributes(
            old(doc)@,
            self.index as int,
            old(doc)@[self.index as int].record.attributes.union_prefer_right(attributes@),
        ));
    }

    /// A copy of the element and its children.
    pub fn to_raw(&self, doc: &Document) -> (r: Node)
        requires
            doc.wf(),
            self.index < doc@.len(),
        ensures
            r.wf(),
            r.model() == doc@[self.index as int],
    {
        doc.nodes[self.index].copy()
    }

    /// A copy of the element and its children.
    pub fn into_raw(self, doc: &Document) -> (r: Node)
        requires
            doc.wf(),
            self.index < doc@.len(),
        ensures
            r.wf(),
            r.model() == doc@[self.index as int],
    {
        self.to_raw(doc)
    }

    /// The attribute `key` as a number: a scalar as it is, text read as
    /// decimal pixels; zero when it is absent or not a number.
    pub fn get(&self, doc: &Document, key: &str) -> (r: Scalar)
        requires
            doc.wf(),
            self.index < doc@.len(),
        ensures
            r == scalar_or_zero(doc@, self.index as int, key@),
    {
        match doc.attributes(self.index).get(key) {
            Some(Attribute::Scalar(v)) => *v,
            Some(Attribute::String(t)) => match parse_scalar(t.as_str()) {
                Some(v) => v,
                None => 0,
            },
            None => 0,
        }
    }

    /// The markup text of attribute `key`; empty when it is absent.
    pub fn get_raw(&self, doc: &Document, key: &str) -> (r: String)
        requires
            doc.wf(),
            self.index < doc@.len(),
        ensures
            doc@[self.index as int].record.attributes.contains_key(key@) ==> r@ == model_text(
                doc@[self.index as int].record.attributes[key@],
            ),
            !doc@[self.index as int].record.attributes.contains_key(key@) ==> r@ == Seq::<
                char,
            >::empty(),
    {
        match doc.attributes(self.index).get(key) {
            Some(a) => a.text(),
            None => String::new(),
        }
    }

    /// Writes the attributes of `style`.
    pub fn with_style(self, doc: &mut Document, style: &Style<Stroke>) -> (r: Element<T>)
        requires
            old(doc).wf(),
            self.index < old(doc)@.len(),
        ensures
            final(doc).wf(),
            final(doc)@ == with_attributes(
                old(doc)@,
                self.index as int,
                old(doc)@[self.index as int].record.attributes.union_prefer_right(
                    style.attributes_spec(),
                ),
            ),
            r.index == self.index,
    {
        let mut node = doc.take(self.index);
        style.to_attributes(&mut node.record.attributes);
        doc.replace(self.index, node);
        assert(doc@ =~= with_attributes(
            old(doc)@,
            self.index as int,
            old(doc)@[self.index as int].record.attributes.union_prefer_right(style.attributes_spec()),
        ));
        self
    }
}

/// Relies on `hex::encode`: two lower-case hexadecimal digits per byte,
/// high half first.
#[verifier::external_body]
fn hex_encode(bytes: &[u8; 4]) -> (r: String)
    ensures
        r@ == lower_hex(bytes@),
{
    hex::encode(bytes)
}

#[verifier::external_type_specification]
#[verifier::external_body]
pub struct ExFromHexError(hex::FromHexError);

/// Relies on `hex::decode`: it succeeds exactly on an even number of
/// hexadecimal digits of either case, and each pair gives one byte, high
/// half first. (Any other character, multi-byte ones included, is refused.)
#[verifier::external_body]
fn hex_decode(text: &str) -> (r: Result<Vec<u8>, hex::FromHexError>)
    ensures
        r is Ok <==> hex_decodable(text@),
        r matches Ok(b) ==> b@ == hex_decoded(text@),
{
    hex::decode(text)
}

/// Four bytes read as an unsigned number, least significant first.
pub open spec fn le_u32(b: Seq<u8>) -> u32 {
    (b[0] as int + 256 * b[1] as int + 65536 * b[2] as int + 16777216 * b[3] as int) as u32
}

impl Element<Circle> {
    /// The geometry the circle's attributes describe; missing values are zero.
    pub open spec fn geometry_spec(&self, doc: Seq<NodeModel>) -> Shape {
        let i = self.index as int;
        Shape::Circle {
            origin: Vector2 { x: scalar_or_zero(doc, i, keys::CX@), y: scalar_or_zero(doc, i, keys::CY@) },
            radius: scalar_or_zero(doc, i, keys::RADIUS@),
        }
    }

    /// Centers the circle on `origin`.
    pub fn at(self, doc: &mut Document, origin: Vector2) -> (r: Element<Circle>)
        requires
            old(doc).wf(),
            self.index < old(doc)@.len(),
        ensures
            final(doc).wf(),
            final(doc)@ == with_attributes(
                old(doc)@,
                self.index as int,
                set_scalar(old(doc)@, self.index as int, keys::CX@, origin.x).insert(
                    keys::CY@,
                    AttributeModel::Scalar(origin.y as int),
                ),
            ),
            r.index == self.index,
    {
        self.insert(doc, keys::CX, Attribute::Scalar(origin.x));
        self.insert(doc, keys::CY, Attribute::Scalar(origin.y));
        assert(doc@ =~= with_attributes(
            old(doc)@,
            self.index as int,
            set_scalar(old(doc)@, self.index as int, keys::CX@, origin.x).insert(
                keys::CY@,
                AttributeModel::Scalar(origin.y as int),
            ),
        ));
        self
    }

    pub fn radius(self, doc: &mut Document, radius: Scalar) -> (r: Element<Circle>)
        requires
            old(doc).wf(),
            self.index < old(doc)@.len(),
        ensures
            final(doc).wf(),
            final(doc)@ == with_attributes(
                old(doc)@,
                self.index as int,
                set_scalar(old(doc)@, self.index as int, keys::RADIUS@, radius),
            ),
            r.index == self.index,
    {
        self.insert(doc, keys::RADIUS, Attribute::Scalar(radius));
        self
    }

    /// The circle's center and radius, read from its attributes.
    pub fn geometry(&self, doc: &Document) -> (r: Shape)
        requires
            doc.wf(),
            self.index < doc@.len(),
        ensures
            r == self.geometry_spec(doc@),
    {
        let x = self.get(doc, keys::CX);
        let y = self.get(doc, keys::CY);
        let radius = self.get(doc, keys::RADIUS);
        Shape::Circle { origin: Vector2::new(x, y), radius }
    }

    /// The anchor `a` of the circle.
    pub fn anchor(&self, doc: &Document, a: Anchor) -> (r: Vector2)
        requires
            doc.wf(),
            self.index < doc@.len(),
            self.geometry_spec(doc@).in_range(),
            a.in_range(),
        ensures
            point_of(r) == self.geometry_spec(doc@).anchor_spec(a),
    {
        self.geometry(doc).anchor(a)
    }
}

impl Element<Rectangle> {
    /// The stored corner and extents lie within range.
    pub open spec fn values_in_range(&self, doc: Seq<NodeModel>) -> bool {
        let i = self.index as int;
        &&& in_range(scalar_or_zero(doc, i, keys::X@) as int)
        &&& in_range(scalar_or_zero(doc, i, keys::Y@) as int)
        &&& in_range(scalar_or_zero(doc, i, keys::WIDTH@) as int)
        &&& in_range(scalar_or_zero(doc, i, keys::HEIGHT@) as int)
    }

    /// The geometry the rectangle's attributes describe: the stored corner
    /// plus half the extents is the center; missing values are zero.
    pub open spec fn geometry_spec(&self, doc: Seq<NodeModel>) -> Shape {
        let i = self.index as int;
        let w = scalar_or_zero(doc, i, keys::WIDTH@);
        let h = scalar_or_zero(doc, i, keys::HEIGHT@);
        Shape::Rectangle {
            origin: Vector2 {
                x: (scalar_or_zero(doc, i, keys::X@) + div_toward_zero(w as int, 2)) as i64,
                y: (scalar_or_zero(doc, i, keys::Y@) + div_toward_zero(h as int, 2)) as i64,
            },
            width: w,
            height: h,
        }
    }

    /// Centers the rectangle on `origin`, keeping its extents.
    pub fn at(self, doc: &mut Document, origin: Vector2) -> (r: Element<Rectangle>)
        requires
            old(doc).wf(),
            self.index < old(doc)@.len(),
            origin.in_range(),
            in_range(scalar_or_zero(old(doc)@, self.index as int, keys::WIDTH@) as int),
            in_range(scalar_or_zero(old(doc)@, self.index as int, keys::HEIGHT@) as int),
        ensures
            final(doc).wf(),
            final(doc)@ == with_attributes(
                old(doc)@,
                self.index as int,
                set_scalar(
                    old(doc)@,
                    self.index as int,
                    keys::X@,
                    (origin.x - div_toward_zero(
                        scalar_or_zero(old(doc)@, self.index as int, keys::WIDTH@) as int,
                        2,
                    )) as i64,
                ).insert(
                    keys::Y@,
                    AttributeModel::Scalar(
                        origin.y - div_toward_zero(
                            scalar_or_zero(old(doc)@, self.index as int, keys::HEIGHT@) as int,
                            2,
                        ),
                    ),
                ),
            ),
            r.index == self.index,
    {
        let height = self.get(doc, keys::HEIGHT);
        let width = self.get(doc, keys::WIDTH);
        let x = origin.x - half(width);
        let y = origin.y - half(height);
        self.insert(doc, keys::X, Attribute::Scalar(x));
        self.insert(doc, keys::Y, Attribute::Scalar(y));
        assert(doc@ =~= with_attributes(
            old(doc)@,
            self.index as int,
            set_scalar(old(doc)@, self.index as int, keys::X@, x).insert(
                keys::Y@,
                AttributeModel::Scalar(y as int),
            ),
        ));
        self
    }

    /// Sets the width, moving the stored corner left by half of it.
    pub fn width(self, doc: &mut Document, width: Scalar) -> (r: Element<Rectangle>)
        requires
            old(doc).wf(),
            self.index < old(doc)@.len(),
            in_range(width as int),
            in_range(scalar_or_zero(old(doc)@, self.index as int, keys::X@) as int),
        ensures
            final(doc).wf(),
            final(doc)@ == with_attributes(
                old(doc)@,
                self.index as int,
                set_scalar(
                    old(doc)@,
                    self.index as int,
                    keys::X@,
                    (scalar_or_zero(old(doc)@, self.index as int, keys::X@) - div_toward_zero(
                        width as int,
                        2,
                    )) as i64,
                ).insert(keys::WIDTH@, AttributeModel::Scalar(width as int)),
            ),
            r.index == self.index,
    {
        let x = self.get(doc, keys::X);
        let x = x - half(width);
        self.insert(doc, keys::X, Attribute::Scalar(x));
        self.insert(doc, keys::WIDTH, Attribute::Scalar(width));
        assert(doc@ =~= with_attributes(
            old(doc)@,
            self.index as int,
            set_scalar(old(doc)@, self.index as int, keys::X@, x).insert(
                keys::WIDTH@,
                AttributeModel::Scalar(width as int),
            ),
        ));
        self
    }

    /// Sets the height, moving the stored corner up by half of it.
    pub fn height(self, doc: &mut Document, height: Scalar) -> (r: Element<Rectangle>)
        requires
            old(doc).wf(),
            self.index < old(doc)@.len(),
            in_range(height as int),
            in_range(scalar_or_zero(old(doc)@, self.index as int, keys::Y@) as int),
        ensures
            final(doc).wf(),
            final(doc)@ == with_attributes(
                old(doc)@,
                self.index as int,
                set_scalar(
                    old(doc)@,
                    self.index as int,
                    keys::Y@,
                    (scalar_or_zero(old(doc)@, self.index as int, keys::Y@) - div_toward_zero(
                        height as int,
                        2,
                    )) as i64,
                ).insert(keys::HEIGHT@, AttributeModel::Scalar(height as int)),
            ),
            r.index == self.index,
    {
        let y = self.get(doc, keys::Y);
        let y = y - half(height);
        self.insert(doc, keys::Y, Attribute::Scalar(y));
        self.insert(doc, keys::HEIGHT, Attribute::Scalar(height));
        assert(doc@ =~= with_attributes(
            old(doc)@,
            self.index as int,
            set_scalar(old(doc)@, self.index as int, keys::Y@, y).insert(
                keys::HEIGHT@,
                AttributeModel::Scalar(height as int),
            ),
        ));
        self
    }

    pub fn rounded_corners(self, doc: &mut Document, corner_radius: Scalar) -> (r: Element<
        Rectangle,
    >)
        requires
            old(doc).wf(),
            self.index < old(doc)@.len(),
        ensures
            final(doc).wf(),
            final(doc)@ == with_attributes(
                old(doc)@,
                self.index as int,
                set_scalar(old(doc)@, self.index as int, keys::CORNER_RADIUS@, corner_radius),
            ),
            r.index == self.index,
    {
        self.insert(doc, keys::CORNER_RADIUS, Attribute::Scalar(corner_radius));
        self
    }

    /// The rectangle's center and extents, read from its attributes.
    pub fn geometry(&self, doc: &Document) -> (r: Shape)
        requires
            doc.wf(),
            self.index < doc@.len(),
            self.values_in_range(doc@),
        ensures
            r == self.geometry_spec(doc@),
    {
        let x = self.get(doc, keys::X);
        let y = self.get(doc, keys::Y);
        let height = self.get(doc, keys::HEIGHT);
        let width = self.get(doc, keys::WIDTH);
        Shape::Rectangle { origin: Vector2::new(x + half(width), y + half(height)), width, height }
    }

    /// The anchor `a` of the rectangle.
    pub fn anchor(&self, doc: &Document, a: Anchor) -> (r: Vector2)
        requires
            doc.wf(),
            self.index < doc@.len(),
            self.values_in_range(doc@),
            self.geometry_spec(doc@).in_range(),
            a.in_range(),
        ensures
            point_of(r) == self.geometry_spec(doc@).anchor_spec(a),
    {
        self.geometry(doc).anchor(a)
    }
}

impl Element<Line> {
    /// The geometry the line's attributes describe; missing values are zero.
    pub open spec fn geometry_spec(&self, doc: Seq<NodeModel>) -> Shape {
        let i = self.index as int;
        Shape::Line {
            start: Vector2 { x: scalar_or_zero(doc, i, keys::X1@), y: scalar_or_zero(doc, i, keys::Y1@) },
            end: Vector2 { x: scalar_or_zero(doc, i, keys::X2@), y: scalar_or_zero(doc, i, keys::Y2@) },
        }
    }

    pub fn start(self, doc: &mut Document, start: Vector2) -> (r: Element<Line>)
        requires
            old(doc).wf(),
            self.index < old(doc)@.len(),
        ensures
            final(doc).wf(),
            final(doc)@ == with_attributes(
                old(doc)@,
                self.index as int,
                set_scalar(old(doc)@, self.index as int, keys::X1@, start.x).insert(
                    keys::Y1@,
                    AttributeModel::Scalar(start.y as int),
                ),
            ),
            r.index == self.index,
    {
        self.insert(doc, keys::X1, Attribute::Scalar(start.x));
        self.insert(doc, keys::Y1, Attribute::Scalar(start.y));
        assert(doc@ =~= with_attributes(
            old(doc)@,
            self.index as int,
            set_scalar(old(doc)@, self.index as int, keys::X1@, start.x).insert(
                keys::Y1@,
                AttributeModel::Scalar(start.y as int),
            ),
        ));
        self
    }

    pub fn end(self, doc: &mut Document, end: Vector2) -> (r: Element<Line>)
        requires
            old(doc).wf(),
            self.index < old(doc)@.len(),
        ensures
            final(doc).wf(),
            final(doc)@ == with_attributes(
                old(doc)@,
                self.index as int,
                set_scalar(old(doc)@, self.index as int, keys::X2@, end.x).insert(
                    keys::Y2@,
                    AttributeModel::Scalar(end.y as int),
                ),
            ),
            r.index == self.index,
    {
        self.insert(doc, keys::X2, Attribute::Scalar(end.x));
        self.insert(doc, keys::Y2, Attribute::Scalar(end.y));
        assert(doc@ =~= with_attributes(
            old(doc)@,
            self.index as int,
            set_scalar(old(doc)@, self.index as int, keys::X2@, end.x).insert(
                keys::Y2@,
                AttributeModel::Scalar(end.y as int),
            ),
        ));
        self
    }

    /// The line's end points, read from its attributes.
    pub fn geometry(&self, doc: &Document) -> (r: Shape)
        requires
            doc.wf(),
            self.index < doc@.len(),
        ensures
            r == self.geometry_spec(doc@),
    {
        let x1 = self.get(doc, keys::X1);
        let y1 = self.get(doc, keys::Y1);
        let x2 = self.get(doc, keys::X2);
        let y2 = self.get(doc, keys::Y2);
        Shape::Line { start: Vector2::new(x1, y1), end: Vector2::new(x2, y2) }
    }

    /// The anchor `a` of the box the line spans.
    pub fn anchor(&self, doc: &Document, a: Anchor) -> (r: Vector2)
        requires
            doc.wf(),
            self.index < doc@.len(),
            self.geometry_spec(doc@).in_range(),
            a.in_range(),
        ensures
            point_of(r) == self.geometry_spec(doc@).anchor_spec(a),
    {
        self.geometry(doc).anchor(a)
    }
}

/// The id of the default arrowhead marker, as bytes.
pub const ARROW_ID: [u8; 4] = [0x61, 0x72, 0x6f, 0x77];

/// The attributes a marker definition carries besides its size: its id in
/// hex, its orientation, view box and reference point.
pub open spec fn marker_header(
    m: Map<Seq<char>, AttributeModel>,
    id: Seq<u8>,
) -> Map<Seq<char>, AttributeModel> {
    m.insert(keys::MARKER_ID@, AttributeModel::Text(lower_hex(id))).insert(
        keys::MARKER_ORIENT@,
        AttributeModel::Text("auto-start-reverse"@),
    ).insert(keys::VIEW_BOX@, AttributeModel::Text("0 -5 10 10"@)).insert(
        keys::REF_X@,
        AttributeModel::Scalar(ARROW_X as int),
    )
}

/// The outline of the default arrowhead: a triangle with its tip
/// [`ARROW_X`] ahead of the base, [`ARROW_Y`] to each side.
pub open spec fn arrowhead_spec() -> Seq<crate::path::Segment> {
    seq![
        crate::path::Segment::MoveTo(Vector2 { x: 0, y: 0 }),
        crate::path::Segment::LineTo(Vector2 { x: 0, y: (-ARROW_Y) as i64 }),
        crate::path::Segment::LineTo(Vector2 { x: ARROW_X, y: 0 }),
        crate::path::Segment::LineTo(Vector2 { x: 0, y: ARROW_Y }),
        crate::path::Segment::Close,
    ]
}

impl Element<Marker> {
    /// Writes the marker's header for `id` and nests the glyph `child`.
    fn with_child(self, doc: &mut Document, id: [u8; 4], child: Record) -> (r: Element<Marker>)
        requires
            old(doc).wf(),
            child.wf(),
            self.index < old(doc)@.len(),
        ensures
            final(doc).wf(),
            final(doc)@ == old(doc)@.update(
                self.index as int,
                NodeModel {
                    record: RecordModel {
                        attributes: marker_header(
                            old(doc)@[self.index as int].record.attributes,
                            id@,
                        ),
                        ..old(doc)@[self.index as int].record
                    },
                    children: old(doc)@[self.index as int].children.push(child.model()),
                },
            ),
            r.index == self.index,
    {
        let mut header = Attributes::new();
        header.insert(keys::MARKER_ID, Attribute::String(hex_encode(&id)));
        header.insert(keys::MARKER_ORIENT, Attribute::String(String::from_str("auto-start-reverse")));
        header.insert(keys::VIEW_BOX, Attribute::String(String::from_str("0 -5 10 10")));
        header.insert(keys::REF_X, Attribute::Scalar(ARROW_X));
        let ghost h = header@;
        self.insert_multi(doc, header);
        assert(old(doc)@[self.index as int].record.attributes.union_prefer_right(h) =~= marker_header(
            old(doc)@[self.index as int].record.attributes,
            id@,
        ));
        self.add_child(doc, child);
        assert(doc@ =~= old(doc)@.update(
            self.index as int,
            NodeModel {
                record: RecordModel {
                    attributes: marker_header(old(doc)@[self.index as int].record.attributes, id@),
                    ..old(doc)@[self.index as int].record
                },
                children: old(doc)@[self.index as int].children.push(child.model()),
            },
        ));
        self
    }

    pub fn height(self, doc: &mut Document, height: Scalar) -> (r: Element<Marker>)
        requires
            old(doc).wf(),
            self.index < old(doc)@.len(),
        ensures
            final(doc).wf(),
            final(doc)@ == with_attributes(
                old(doc)@,
                self.index as int,
                set_scalar(old(doc)@, self.index as int, keys::MARKER_HEIGHT@, height),
            ),
            r.index == self.index,
    {
        self.insert(doc, keys::MARKER_HEIGHT, Attribute::Scalar(height));
        self
    }

    pub fn width(self, doc: &mut Document, width: Scalar) -> (r: Element<Marker>)
        requires
            old(doc).wf(),
            self.index < old(doc)@.len(),
        ensures
            final(doc).wf(),
            final(doc)@ == with_attributes(
                old(doc)@,
                self.index as int,
                set_scalar(old(doc)@, self.index as int, keys::MARKER_WIDTH@, width),
            ),
            r.index == self.index,
    {
        self.insert(doc, keys::MARKER_WIDTH, Attribute::Scalar(width));
        self
    }

    /// Makes the marker the default arrowhead: its header with
    /// [`ARROW_ID`], and a path child drawing the triangle.
    pub fn arrow(self, doc: &mut Document) -> (r: Element<Marker>)
        requires
            old(doc).wf(),
            self.index < old(doc)@.len(),
        ensures
            final(doc).wf(),
            final(doc)@ == old(doc)@.update(
                self.index as int,
                NodeModel {
                    record: RecordModel {
                        attributes: marker_header(
                            old(doc)@[self.index as int].record.attributes,
                            ARROW_ID@,
                        ),
                        ..old(doc)@[self.index as int].record
                    },
                    children: old(doc)@[self.index as int].children.push(
                        RecordModel {
                            kind: Kind::Path,
                            attributes: Map::empty().insert(
                                keys::PATH@,
                                AttributeModel::Text(segments_text(arrowhead_spec())),
                            ),
                        },
                    ),
                },
            ),
            r.index == self.index,
    {
        let path = PathBuilder::start(Vector2::zeros()).line_to(Vector2::new(0, -ARROW_Y)).line_to(
            Vector2::new(ARROW_X, 0),
        ).line_to(Vector2::new(0, ARROW_Y)).close();
        assert(path@ =~= arrowhead_spec());
        let mut attributes = Attributes::new();
        attributes.insert(keys::PATH, Attribute::String(path.text()));
        let child = Record { kind: Kind::Path, attributes };
        self.with_child(doc, ARROW_ID, child)
    }
}

impl Element<Marker> {
    /// The marker's id, as text.
    pub open spec fn id_text(&self, doc: Seq<NodeModel>) -> Seq<char> {
        let m = doc[self.index as int].record.attributes;
        if m.contains_key(keys::MARKER_ID@) {
            model_text(m[keys::MARKER_ID@])
        } else {
            Seq::empty()
        }
    }

    /// The marker's id read as four hex-encoded bytes, least significant
    /// first; `None` when the id is not eight hexadecimal digits.
    pub fn id(&self, doc: &Document) -> (r: Option<u32>)
        requires
            doc.wf(),
            self.index < doc@.len(),
        ensures
            r == (if hex_decodable(self.id_text(doc@)) && self.id_text(doc@).len() == 8 {
                Some(le_u32(hex_decoded(self.id_text(doc@))))
            } else {
                None
            }),
    {
        let text = self.get_raw(doc, keys::MARKER_ID);
        match hex_decode(text.as_str()) {
            Ok(bytes) => {
                if bytes.len() == 4 {
                    Some(
                        bytes[0] as u32 + 256 * (bytes[1] as u32) + 65536 * (bytes[2] as u32)
                            + 16777216 * (bytes[3] as u32),
                    )
                } else {
                    None
                }
            },
            Err(_) => None,
        }
    }
}

impl Element<Path> {
    /// Sets the path's drawing instructions to those of `path`.
    pub fn raw(self, doc: &mut Document, path: &Path) -> (r: Element<Path>)
        requires
            old(doc).wf(),
            self.index < old(doc)@.len(),
        ensures
            final(doc).wf(),
            final(doc)@ == with_attributes(
                old(doc)@,
                self.index as int,
                old(doc)@[self.index as int].record.attributes.insert(
                    keys::PATH@,
                    AttributeModel::Text(segments_text(path@)),
                ),
            ),
            r.index == self.index,
    {
        self.insert(doc, keys::PATH, Attribute::String(path.text()));
        self
    }

    /// Draws a straight arrow from `start` to `end`, stopping short of
    /// `end` by the default arrowhead's shift.
    pub fn arrow(self, doc: &mut Document, start: Vector2, end: Vector2) -> (r: Element<Path>)
        requires
            old(doc).wf(),
            self.index < old(doc)@.len(),
            start.in_range(),
            end.in_range(),
        ensures
            final(doc).wf(),
            final(doc)@ == with_attributes(
                old(doc)@,
                self.index as int,
                old(doc)@[self.index as int].record.attributes.insert(
                    keys::PATH@,
                    AttributeModel::Text(segments_text(straight_arrow_spec(start, end))),
                ),
            ),
            r.index == self.index,
    {
        let path = straight_arrow(start, end);
        self.raw(doc, &path)
    }

    /// Draws an arrow that goes `y_shift` vertically, across to the column
    /// of `end`, then to `end`, stopping short of it by the default
    /// arrowhead's shift.
    pub fn arrow_hvh(self, doc: &mut Document, start: Vector2, end: Vector2, y_shift: Scalar) -> (r: Element<Path>)
        requires
            old(doc).wf(),
            self.index < old(doc)@.len(),
            start.in_range(),
            end.in_range(),
            in_range(y_shift as int),
            in_range(start.y + y_shift),
        ensures
            final(doc).wf(),
            final(doc)@ == with_attributes(
                old(doc)@,
                self.index as int,
                old(doc)@[self.index as int].record.attributes.insert(
                    keys::PATH@,
                    AttributeModel::Text(segments_text(elbow_arrow_spec(start, end, y_shift))),
                ),
            ),
            r.index == self.index,
    {
        let path = elbow_arrow(start, end, y_shift);
        self.raw(doc, &path)
    }
}

} // verus!
