use trikz::anchor::{Anchor, Shape};
use trikz::attributes::{Attribute, Attributes};
use trikz::elements::{Circle, Document, Element, Kind};
use trikz::keys;
use trikz::scalar::{Scalar, Vector2, UNIT};
use trikz::style::{Color, Stroke, Style};

fn s(v: f64) -> Scalar {
    (v * UNIT as f64).round() as Scalar
}

fn v(x: f64, y: f64) -> Vector2 {
    Vector2::new(s(x), s(y))
}

#[test]
fn circle_create_and_modify() {
    let mut doc = Document::new();
    let circ = doc.circle();
    let circ = circ.radius(&mut doc, s(5.0));

    assert_eq!(circ.geometry(&doc), Shape::Circle { origin: Vector2::zeros(), radius: s(5.0) });

    let other = doc.circle();
    let other = other.like(&mut doc, &circ).at(&mut doc, v(12.0, -32.5));

    assert_eq!(other.geometry(&doc), Shape::Circle { origin: v(12.0, -32.5), radius: s(5.0) });
    assert_eq!(circ.geometry(&doc), Shape::Circle { origin: Vector2::zeros(), radius: s(5.0) });
}

#[test]
fn line_create_and_modify() {
    let mut doc = Document::new();
    let line = doc.line();
    let line = line.start(&mut doc, v(-2.0, 3.0)).end(&mut doc, v(5.0, 6.5));

    assert_eq!(line.get_raw(&doc, keys::X1), "-2");
    assert_eq!(line.get_raw(&doc, keys::Y1), "3");
    assert_eq!(line.get_raw(&doc, keys::X2), "5");
    assert_eq!(line.get_raw(&doc, keys::Y2), "6.5");
}

fn line_values(x1: f64, y1: f64, x2: f64, y2: f64) -> Attributes {
    let mut a = Attributes::new();
    a.insert(keys::X1, Attribute::Scalar(s(x1)));
    a.insert(keys::Y1, Attribute::Scalar(s(y1)));
    a.insert(keys::X2, Attribute::Scalar(s(x2)));
    a.insert(keys::Y2, Attribute::Scalar(s(y2)));
    a
}

#[test]
fn geometry() {
    let mut doc = Document::new();
    let elem = doc.line();

    assert_eq!(elem.geometry(&doc), Shape::Line { start: Vector2::zeros(), end: Vector2::zeros() });

    elem.insert_multi(&mut doc, line_values(0.0, 1.0, 10.0, 2.0));
    assert_eq!(elem.geometry(&doc), Shape::Line { start: v(0.0, 1.0), end: v(10.0, 2.0) });

    elem.insert_multi(&mut doc, line_values(10.0, -1.0, -5.0, 2.0));
    assert_eq!(elem.geometry(&doc), Shape::Line { start: v(10.0, -1.0), end: v(-5.0, 2.0) });
}

#[test]
fn rectangle_create_and_modify() {
    let mut doc = Document::new();
    let rect = doc.rectangle();
    let rect = rect.width(&mut doc, s(1.5)).height(&mut doc, s(2.0));

    let expected = Shape::Rectangle { origin: Vector2::zeros(), width: s(1.5), height: s(2.0) };
    assert_eq!(rect.geometry(&doc), expected);

    let other = doc.rectangle();
    let other = other
        .like(&mut doc, &rect.clone())
        .at(&mut doc, v(10.0, 20.0))
        .rounded_corners(&mut doc, s(0.5));

    // the first rectangle has not changed
    assert_eq!(rect.geometry(&doc), expected);

    // the other one
    assert_eq!(
        other.geometry(&doc),
        Shape::Rectangle { origin: v(10.0, 20.0), width: s(1.5), height: s(2.0) }
    );

    // rounded corners
    assert_eq!(other.get_raw(&doc, keys::CORNER_RADIUS), "0.5");
}

#[test]
fn element_anchors() {
    let mut doc = Document::new();
    let rect = doc.rectangle();
    let rect = rect.width(&mut doc, s(40.0)).height(&mut doc, s(20.0)).at(&mut doc, v(100.0, 50.0));
    assert_eq!(rect.anchor(&doc, Anchor::NorthEast), v(120.0, 40.0));
    assert_eq!(rect.anchor(&doc, Anchor::West), v(80.0, 50.0));

    let circ = doc.circle();
    let circ = circ.at(&mut doc, v(-10.0, 0.0)).radius(&mut doc, s(4.0));
    assert_eq!(circ.anchor(&doc, Anchor::South), v(-10.0, 4.0));

    let line = doc.line();
    let line = line.start(&mut doc, v(0.0, 0.0)).end(&mut doc, v(6.0, 8.0));
    assert_eq!(line.anchor(&doc, Anchor::Origin), v(3.0, 4.0));
}

#[test]
fn missing_values_read_as_zero() {
    let mut doc = Document::new();
    let circ = doc.circle();
    assert_eq!(circ.get(&doc, keys::RADIUS), 0);
    circ.insert(&mut doc, keys::RADIUS, Attribute::String("wide".to_string()));
    assert_eq!(circ.get(&doc, keys::RADIUS), 0);
    assert_eq!(circ.get_raw(&doc, keys::RADIUS), "wide");
    assert_eq!(circ.get_raw(&doc, keys::CX), "");
}

#[test]
fn marker_arrow() {
    let mut doc = Document::new();
    let marker = doc.marker();
    let marker = marker.arrow(&mut doc).height(&mut doc, s(3.0)).width(&mut doc, s(4.0));
    assert_eq!(marker.get_raw(&doc, keys::MARKER_ID), "61726f77");
    assert_eq!(marker.get_raw(&doc, keys::MARKER_ORIENT), "auto-start-reverse");
    assert_eq!(marker.get_raw(&doc, keys::VIEW_BOX), "0 -5 10 10");
    assert_eq!(marker.get_raw(&doc, keys::REF_X), "10");
    assert_eq!(marker.get_raw(&doc, keys::MARKER_HEIGHT), "3");
    assert_eq!(marker.get_raw(&doc, keys::MARKER_WIDTH), "4");
    let node = marker.to_raw(&doc);
    assert_eq!(node.record.kind, Kind::Marker);
    assert_eq!(node.children.len(), 1);
    assert_eq!(node.children[0].kind, Kind::Path);
    assert_eq!(node.children[0].attributes.get(keys::PATH).unwrap().text(), "M 0 0 L 0 -3 L 10 0 L 0 3 Z");
}

#[test]
fn path_arrows() {
    let mut doc = Document::new();
    let arrow = doc.path();
    let arrow = arrow.arrow(&mut doc, v(0.0, 0.0), v(100.0, 0.0));
    assert_eq!(arrow.get_raw(&doc, keys::PATH), "M 0 0 L 92.5 0");

    let elbow = doc.path();
    let elbow = elbow.arrow_hvh(&mut doc, v(0.0, 0.0), v(100.0, 50.0), s(20.0));
    assert_eq!(elbow.get_raw(&doc, keys::PATH), "M 0 0 v 20 L 100 20 L 100 42.5");
}

#[test]
fn styles_and_document_order() {
    let mut doc = Document::new();
    let rect = doc.rectangle();
    let style = Style::new().fill(Color::Green).stroke(Stroke::new().color(Color::Black));
    let rect = rect.with_style(&mut doc, &style);
    assert_eq!(rect.get_raw(&doc, keys::FILL), "green");
    assert_eq!(rect.get_raw(&doc, keys::STROKE), "black");
    let _ = doc.circle();
    let same = Element::<Circle>::new(1);
    assert_eq!(same.get(&doc, keys::RADIUS), 0);
    let nodes = doc.finalize();
    assert_eq!(nodes.len(), 2);
    assert_eq!(nodes[0].record.kind, Kind::Rectangle);
    assert_eq!(nodes[1].record.kind, Kind::Circle);
}

#[test]
fn attributes_replace_and_extend() {
    let mut a = Attributes::new();
    a.insert(keys::X, Attribute::Scalar(s(1.0)));
    a.insert(keys::X, Attribute::Scalar(s(2.0)));
    assert_eq!(a.len(), 1);
    assert_eq!(a.get_scalar(keys::X), Some(s(2.0)));
    assert_eq!(a.get_scalar(keys::Y), None);

    let mut b = Attributes::new();
    b.insert(keys::X, Attribute::Scalar(s(3.0)));
    b.insert(keys::Y, Attribute::String("top".to_string()));
    a.extend(b);
    assert_eq!(a.get_scalar(keys::X), Some(s(3.0)));
    assert_eq!(a.get_scalar(keys::Y), None);
    assert_eq!(a.get(keys::Y).unwrap().text(), "top");

    let mut c = Attributes::new();
    a.append_into(&mut c);
    assert_eq!(c.len(), 2);
    let entries = c.into_inner();
    assert_eq!(entries.len(), 2);
}

#[test]
fn marker_id() {
    let mut doc = Document::new();
    let marker = doc.marker();
    assert_eq!(marker.id(&doc), None);
    let marker = marker.arrow(&mut doc);
    assert_eq!(marker.id(&doc), Some(u32::from_le_bytes(*b"arow")));
    marker.insert(&mut doc, keys::MARKER_ID, Attribute::String("0A0B0C0D".to_string()));
    assert_eq!(marker.id(&doc), Some(0x0D0C0B0A));
    marker.insert(&mut doc, keys::MARKER_ID, Attribute::String("0a0b0c".to_string()));
    assert_eq!(marker.id(&doc), None);
    marker.insert(&mut doc, keys::MARKER_ID, Attribute::String("0a0b0c0g".to_string()));
    assert_eq!(marker.id(&doc), None);
}

#[test]
fn kind_tags() {
    assert_eq!(Kind::Circle.tag(), "circle");
    assert_eq!(Kind::Rectangle.tag(), "rect");
    assert_eq!(Kind::Line.tag(), "line");
    assert_eq!(Kind::Marker.tag(), "marker");
    assert_eq!(Kind::Path.tag(), "path");
}

#[test]
fn numbers_stored_as_text_are_read() {
    let mut doc = Document::new();
    let circ = doc.circle();
    circ.insert(&mut doc, keys::RADIUS, Attribute::String("5".to_string()));
    circ.insert(&mut doc, keys::CX, Attribute::String("-2.25".to_string()));
    circ.insert(&mut doc, keys::CY, Attribute::String("0.5".to_string()));
    assert_eq!(circ.get(&doc, keys::RADIUS), s(5.0));
    assert_eq!(circ.geometry(&doc), Shape::Circle { origin: v(-2.25, 0.5), radius: s(5.0) });
    assert_eq!(circ.anchor(&doc, Anchor::East), v(2.75, 0.5));
}
