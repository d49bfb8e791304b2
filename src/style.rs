//! Fill colors, strokes and fonts, and the attributes they write.

use vstd::prelude::*;
use vstd::array::ArrayAdditionalExecFns;
use vstd::string::StringExecFns;
use crate::attributes::{Attribute, AttributeModel, Attributes};
use crate::keys;
use crate::scalar::{div_toward_zero, Scalar, Vector2, UNIT};
use crate::text::{decimal, hex_byte, push_decimal, push_hex_byte};
use crate::text::{integer_text, push_integer};

verus! {

/// A named color or an RGB triple.
#[derive(Clone, Copy, Debug, PartialEq, Eq, Structural)]
pub enum Color {
    Black,
    Blue,
    Cyan,
    Gray,
    Green,
    Magenta,
    Red,
    White,
    Rgb(u8, u8, u8),
}

/// The markup text of a color: its name, or `#RRGGBB` in upper-case hex.
pub open spec fn color_text(c: Color) -> Seq<char> {
    match c {
        Color::Black => "black"@,
        Color::Blue => "blue"@,
        Color::Cyan => "cyan"@,
        Color::Gray => "gray"@,
        Color::Green => "green"@,
        Color::Magenta => "magenta"@,
        Color::Red => "red"@,
        Color::White => "white"@,
        Color::Rgb(r, g, b) => seq!['#'] + hex_byte(r) + hex_byte(g) + hex_byte(b),
    }
}

impl Color {
    /// The markup text of the color.
    pub fn text(&self) -> (r: String)
        ensures
            r@ == color_text(*self),
    {
        match *self {
            Color::Black => String::from_str("black"),
            Color::Blue => String::from_str("blue"),
            Color::Cyan => String::from_str("cyan"),
            Color::Gray => String::from_str("gray"),
            Color::Green => String::from_str("green"),
            Color::Magenta => String::from_str("magenta"),
            Color::Red => String::from_str("red"),
            Color::White => String::from_str("white"),
            Color::Rgb(r, g, b) => {
                proof {
                    reveal_strlit("#");
                }
                let mut s = String::from_str("#");
                push_hex_byte(&mut s, r);
                push_hex_byte(&mut s, g);
                push_hex_byte(&mut s, b);
                s
            },
        }
    }
}

/// The dash pattern of a stroke.
#[derive(Clone, Copy, Debug, PartialEq, Eq, Structural)]
pub enum StrokeStyle {
    Dashed,
    Dashdotted,
    Dotted,
    Solid,
}

/// The dash array of a stroke style: dashes of four, dots of one.
pub open spec fn stroke_style_text(s: StrokeStyle) -> Seq<char> {
    match s {
        StrokeStyle::Dashed => "4 1"@,
        StrokeStyle::Dashdotted => "4 1 4 1"@,
        StrokeStyle::Dotted => "1"@,
        StrokeStyle::Solid => "none"@,
    }
}

impl StrokeStyle {
    /// The dash array in markup.
    pub fn text(&self) -> (r: String)
        ensures
            r@ == stroke_style_text(*self),
    {
        match *self {
            StrokeStyle::Dashed => String::from_str("4 1"),
            StrokeStyle::Dashdotted => String::from_str("4 1 4 1"),
            StrokeStyle::Dotted => String::from_str("1"),
            StrokeStyle::Solid => String::from_str("none"),
        }
    }
}

impl Default for StrokeStyle {
    fn default() -> (r: StrokeStyle)
        ensures
            r == StrokeStyle::Solid,
    {
        StrokeStyle::Solid
    }
}

/// How a line is drawn. Nothing is written for a stroke without a color.
#[derive(Clone, Debug)]
pub struct Stroke {
    pub color: Option<Color>,
    /// Ids of the markers at the start, the middle vertices and the end.
    pub markers: [Option<String>; 3],
    /// In percent, at most 100.
    pub opacity: u8,
    pub width: Scalar,
    pub style: StrokeStyle,
}

/// The text `url(#id)` that refers to a marker.
pub open spec fn marker_ref(id: Seq<char>) -> Seq<char> {
    "url(#"@ + id + ")"@
}

/// `m` with `key` set to the reference to `marker`, when there is one.
pub open spec fn with_marker(
    m: Map<Seq<char>, AttributeModel>,
    key: Seq<char>,
    marker: Option<String>,
) -> Map<Seq<char>, AttributeModel> {
    match marker {
        Some(id) => m.insert(key, AttributeModel::Text(marker_ref(id@))),
        None => m,
    }
}

impl Stroke {
    /// The attributes the stroke writes: none without a color; otherwise the
    /// color, the opacity in percent, the width, the dash array and a
    /// reference to each marker.
    pub open spec fn attributes_spec(&self) -> Map<Seq<char>, AttributeModel> {
        match self.color {
            None => Map::empty(),
            Some(c) => {
                let m = Map::empty().insert(keys::STROKE@, AttributeModel::Text(color_text(c))).insert(
                    keys::STROKE_OPACITY@,
                    AttributeModel::Text(decimal(self.opacity as nat) + "%"@),
                ).insert(keys::STROKE_WIDTH@, AttributeModel::Scalar(self.width as int)).insert(
                    keys::STROKE_STYLE@,
                    AttributeModel::Text(stroke_style_text(self.style)),
                );
                with_marker(
                    with_marker(
                        with_marker(m, keys::MARKER_START@, self.markers[0]),
                        keys::MARKER_MID@,
                        self.markers[1],
                    ),
                    keys::MARKER_END@,
                    self.markers[2],
                )
            },
        }
    }

    /// A stroke without a color (so it writes nothing), solid, one pixel
    /// wide, fully opaque, with no markers.
    pub fn new() -> (r: Stroke)
        ensures
            r.color is None,
            r.markers[0] is None && r.markers[1] is None && r.markers[2] is None,
            r.opacity == 100,
            r.width == UNIT,
            r.style == StrokeStyle::Solid,
    {
        Stroke::default()
    }

    pub fn color(self, color: Color) -> (r: Stroke)
        ensures
            r == (Stroke { color: Some(color), ..self }),
    {
        Stroke { color: Some(color), ..self }
    }

    /// Sets the opacity in percent; values above 100 count as 100.
    pub fn opacity(self, opacity: u8) -> (r: Stroke)
        ensures
            r == (Stroke { opacity: if opacity > 100 { 100 } else { opacity }, ..self }),
    {
        let opacity = if opacity > 100 { 100 } else { opacity };
        Stroke { opacity, ..self }
    }

    pub fn width(self, width: Scalar) -> (r: Stroke)
        ensures
            r == (Stroke { width, ..self }),
    {
        Stroke { width, ..self }
    }

    pub fn style(self, style: StrokeStyle) -> (r: Stroke)
        ensures
            r == (Stroke { style, ..self }),
    {
        Stroke { style, ..self }
    }

    pub fn dashed(self) -> (r: Stroke)
        ensures
            r == (Stroke { style: StrokeStyle::Dashed, ..self }),
    {
        self.style(StrokeStyle::Dashed)
    }

    pub fn dashdotted(self) -> (r: Stroke)
        ensures
            r == (Stroke { style: StrokeStyle::Dashdotted, ..self }),
    {
        self.style(StrokeStyle::Dashdotted)
    }

    pub fn dotted(self) -> (r: Stroke)
        ensures
            r == (Stroke { style: StrokeStyle::Dotted, ..self }),
    {
        self.style(StrokeStyle::Dotted)
    }

    /// Puts the marker `marker_id` at the start of the line.
    pub fn marker_start(self, marker_id: String) -> (r: Stroke)
        ensures
            r.markers@ == self.markers@.update(0, Some(marker_id)),
            r.color == self.color && r.opacity == self.opacity && r.width == self.width,
            r.style == self.style,
    {
        let mut markers = self.markers;
        markers.set(0, Some(marker_id));
        Stroke { markers, ..self }
    }

    /// Puts the marker `marker_id` on the inner vertices of the line.
    pub fn marker_mid(self, marker_id: String) -> (r: Stroke)
        ensures
            r.markers@ == self.markers@.update(1, Some(marker_id)),
            r.color == self.color && r.opacity == self.opacity && r.width == self.width,
            r.style == self.style,
    {
        let mut markers = self.markers;
        markers.set(1, Some(marker_id));
        Stroke { markers, ..self }
    }

    /// Puts the marker `marker_id` at the end of the line.
    pub fn marker_end(self, marker_id: String) -> (r: Stroke)
        ensures
            r.markers@ == self.markers@.update(2, Some(marker_id)),
            r.color == self.color && r.opacity == self.opacity && r.width == self.width,
            r.style == self.style,
    {
        let mut markers = self.markers;
        markers.set(2, Some(marker_id));
        Stroke { markers, ..self }
    }
}

/// The text `url(#id)`.
fn marker_ref_text(id: &String) -> (r: String)
    ensures
        r@ == marker_ref(id@),
{
    let mut s = String::from_str("url(#");
    s.append(id.as_str());
    s.append(")");
    s
}

/// Writes the reference to `marker`, when there is one, under `key`.
fn write_marker(attributes: &mut Attributes, key: &str, marker: &Option<String>)
    requires
        old(attributes).wf(),
    ensures
        final(attributes).wf(),
        final(attributes)@ == with_marker(old(attributes)@, key@, *marker),
{
    match marker {
        Some(id) => attributes.insert(key, Attribute::String(marker_ref_text(id))),
        None => {},
    }
}

impl Stroke {
    /// Writes the stroke's attributes (see [`Stroke::attributes_spec`]),
    /// replacing values already there.
    pub fn to_attributes(&self, attributes: &mut Attributes)
        requires
            old(attributes).wf(),
        ensures
            final(attributes).wf(),
            final(attributes)@ == old(attributes)@.union_prefer_right(self.attributes_spec()),
    {
        match self.color {
            None => {
                assert(attributes@ =~= attributes@.union_prefer_right(self.attributes_spec()));
            },
            Some(color) => {
                let ghost before = attributes@;
                attributes.insert(keys::STROKE, Attribute::String(color.text()));
                let mut opacity = String::new();
                push_decimal(&mut opacity, self.opacity as u64);
                opacity.append("%");
                attributes.insert(keys::STROKE_OPACITY, Attribute::String(opacity));
                attributes.insert(keys::STROKE_WIDTH, Attribute::Scalar(self.width));
                attributes.insert(keys::STROKE_STYLE, Attribute::String(self.style.text()));
                let ghost m = Map::empty().insert(
                    keys::STROKE@,
                    AttributeModel::Text(color_text(color)),
                ).insert(keys::STROKE_OPACITY@, AttributeModel::Text(decimal(self.opacity as nat) + "%"@)).insert(
                    keys::STROKE_WIDTH@,
                    AttributeModel::Scalar(self.width as int),
                ).insert(keys::STROKE_STYLE@, AttributeModel::Text(stroke_style_text(self.style)));
                assert(attributes@ =~= before.union_prefer_right(m));
                write_marker(attributes, keys::MARKER_START, &self.markers[0]);
                let ghost m1 = with_marker(m, keys::MARKER_START@, self.markers[0]);
                assert(attributes@ =~= before.union_prefer_right(m1));
                write_marker(attributes, keys::MARKER_MID, &self.markers[1]);
                let ghost m2 = with_marker(m1, keys::MARKER_MID@, self.markers[1]);
                assert(attributes@ =~= before.union_prefer_right(m2));
                write_marker(attributes, keys::MARKER_END, &self.markers[2]);
                let ghost m3 = with_marker(m2, keys::MARKER_END@, self.markers[2]);
                assert(attributes@ =~= before.union_prefer_right(m3));
            },
        }
    }
}

impl Default for Stroke {
    fn default() -> (r: Stroke)
        ensures
            r.color is None,
            r.markers[0] is None && r.markers[1] is None && r.markers[2] is None,
            r.opacity == 100,
            r.width == UNIT,
            r.style == StrokeStyle::Solid,
    {
        Stroke {
            color: None,
            markers: [None, None, None],
            opacity: 100,
            width: UNIT,
            style: StrokeStyle::Solid,
        }
    }
}

/// A relative font size.
#[derive(Clone, Copy, Debug, PartialEq, Eq, Structural)]
#[allow(clippy::upper_case_acronyms)]
pub enum FontSize {
    XXS,
    XS,
    S,
    M,
    L,
    XL,
    XXL,
    XXXL,
}

/// The markup keyword of a font size.
pub open spec fn font_size_text(s: FontSize) -> Seq<char> {
    match s {
        FontSize::XXS => "xx-small"@,
        FontSize::XS => "x-small"@,
        FontSize::S => "small"@,
        FontSize::M => "medium"@,
        FontSize::L => "large"@,
        FontSize::XL => "x-large"@,
        FontSize::XXL => "xx-large"@,
        FontSize::XXXL => "xxx-large"@,
    }
}

impl FontSize {
    /// The markup keyword of the size.
    pub fn text(&self) -> (r: String)
        ensures
            r@ == font_size_text(*self),
    {
        match *self {
            FontSize::XXS => String::from_str("xx-small"),
            FontSize::XS => String::from_str("x-small"),
            FontSize::S => String::from_str("small"),
            FontSize::M => String::from_str("medium"),
            FontSize::L => String::from_str("large"),
            FontSize::XL => String::from_str("x-large"),
            FontSize::XXL => String::from_str("xx-large"),
            FontSize::XXXL => String::from_str("xxx-large"),
        }
    }
}

impl Default for FontSize {
    fn default() -> (r: FontSize)
        ensures
            r == FontSize::M,
    {
        FontSize::M
    }
}

/// How text is set.
#[derive(Clone, Copy, Debug, PartialEq, Eq, Structural)]
pub struct Font {
    pub size: FontSize,
}

impl Default for Font {
    fn default() -> (r: Font)
        ensures
            r.size == FontSize::M,
    {
        Font { size: FontSize::M }
    }
}

impl Font {
    /// The attributes the font writes: its size.
    pub open spec fn attributes_spec(&self) -> Map<Seq<char>, AttributeModel> {
        Map::empty().insert(keys::FONT_SIZE@, AttributeModel::Text(font_size_text(self.size)))
    }

    /// A medium font.
    pub fn new() -> (r: Font)
        ensures
            r.size == FontSize::M,
    {
        Font::default()
    }

    pub fn xxs(self) -> (r: Font)
        ensures
            r.size == FontSize::XXS,
    {
        Font { size: FontSize::XXS }
    }

    pub fn xs(self) -> (r: Font)
        ensures
            r.size == FontSize::XS,
    {
        Font { size: FontSize::XS }
    }

    pub fn s(self) -> (r: Font)
        ensures
            r.size == FontSize::S,
    {
        Font { size: FontSize::S }
    }

    pub fn m(self) -> (r: Font)
        ensures
            r.size == FontSize::M,
    {
        Font { size: FontSize::M }
    }

    pub fn l(self) -> (r: Font)
        ensures
            r.size == FontSize::L,
    {
        Font { size: FontSize::L }
    }

    pub fn xl(self) -> (r: Font)
        ensures
            r.size == FontSize::XL,
    {
        Font { size: FontSize::XL }
    }

    pub fn xxl(self) -> (r: Font)
        ensures
            r.size == FontSize::XXL,
    {
        Font { size: FontSize::XXL }
    }

    pub fn xxxl(self) -> (r: Font)
        ensures
            r.size == FontSize::XXXL,
    {
        Font { size: FontSize::XXXL }
    }

    /// Writes the font size, replacing a value already there.
    pub fn write(&self, attributes: &mut Attributes)
        requires
            old(attributes).wf(),
        ensures
            final(attributes).wf(),
            final(attributes)@ == old(attributes)@.union_prefer_right(self.attributes_spec()),
    {
        attributes.insert(keys::FONT_SIZE, Attribute::String(self.size.text()));
        assert(attributes@ =~= old(attributes)@.union_prefer_right(self.attributes_spec()));
    }
}

/// A fill color and a representation style: a [`Stroke`] for lines and
/// shapes, a [`Font`] for text.
#[derive(Clone, Debug)]
pub struct Style<T> {
    pub fill: Option<Color>,
    pub repr: Option<T>,
}

/// The attributes a fill writes.
pub open spec fn fill_spec(fill: Option<Color>) -> Map<Seq<char>, AttributeModel> {
    match fill {
        Some(c) => Map::empty().insert(keys::FILL@, AttributeModel::Text(color_text(c))),
        None => Map::empty(),
    }
}

impl<T> Style<T> {
    /// No fill and no representation.
    pub fn new() -> (r: Style<T>)
        ensures
            r.fill is None,
            r.repr is None,
    {
        Style { fill: None, repr: None }
    }

    pub fn fill(self, fill: Color) -> (r: Style<T>)
        ensures
            r.fill == Some(fill),
            r.repr == self.repr,
    {
        Style { fill: Some(fill), repr: self.repr }
    }

    /// Writes the fill color, when there is one.
    fn write_fill(&self, attributes: &mut Attributes)
        requires
            old(attributes).wf(),
        ensures
            final(attributes).wf(),
            final(attributes)@ == old(attributes)@.union_prefer_right(fill_spec(self.fill)),
    {
        match self.fill {
            Some(c) => attributes.insert(keys::FILL, Attribute::String(c.text())),
            None => {},
        }
        assert(attributes@ =~= old(attributes)@.union_prefer_right(fill_spec(self.fill)));
    }
}

impl<T> Default for Style<T> {
    fn default() -> (r: Style<T>)
        ensures
            r.fill is None,
            r.repr is None,
    {
        Style { fill: None, repr: None }
    }
}

impl Style<Stroke> {
    /// The attributes the style writes: the fill, then the stroke's.
    pub open spec fn attributes_spec(&self) -> Map<Seq<char>, AttributeModel> {
        match self.repr {
            Some(s) => fill_spec(self.fill).union_prefer_right(s.attributes_spec()),
            None => fill_spec(self.fill),
        }
    }

    pub fn stroke(self, stroke: Stroke) -> (r: Style<Stroke>)
        ensures
            r.fill == self.fill,
            r.repr == Some(stroke),
    {
        Style { fill: self.fill, repr: Some(stroke) }
    }

    /// Writes the style's attributes, replacing values already there.
    pub fn to_attributes(&self, attributes: &mut Attributes)
        requires
            old(attributes).wf(),
        ensures
            final(attributes).wf(),
            final(attributes)@ == old(attributes)@.union_prefer_right(self.attributes_spec()),
    {
        self.write_fill(attributes);
        match &self.repr {
            Some(s) => s.to_attributes(attributes),
            None => {},
        }
        assert(attributes@ =~= old(attributes)@.union_prefer_right(self.attributes_spec()));
    }
}

impl Style<Font> {
    /// The attributes the style writes: the fill, then the font's.
    pub open spec fn attributes_spec(&self) -> Map<Seq<char>, AttributeModel> {
        match self.repr {
            Some(f) => fill_spec(self.fill).union_prefer_right(f.attributes_spec()),
            None => fill_spec(self.fill),
        }
    }

    pub fn font(self, font: Font) -> (r: Style<Font>)
        ensures
            r.fill == self.fill,
            r.repr == Some(font),
    {
        Style { fill: self.fill, repr: Some(font) }
    }

    /// Writes the style's attributes, replacing values already there.
    pub fn to_attributes(&self, attributes: &mut Attributes)
        requires
            old(attributes).wf(),
        ensures
            final(attributes).wf(),
            final(attributes)@ == old(attributes)@.union_prefer_right(self.attributes_spec()),
    {
        self.write_fill(attributes);
        match &self.repr {
            Some(f) => f.write(attributes),
            None => {},
        }
        assert(attributes@ =~= old(attributes)@.union_prefer_right(self.attributes_spec()));
    }
}

/// A translation and a rotation (in millionths of a degree) of an element.
#[derive(Clone, Copy, Debug, Default, PartialEq, Eq, Structural)]
pub struct Transform {
    pub translation: Option<Vector2>,
    pub rotation: Option<Scalar>,
}

/// Whole pixels (or degrees) of a scalar, the fraction dropped.
pub open spec fn whole(v: Scalar) -> int {
    div_toward_zero(v as int, UNIT as int)
}

/// The markup of a transform, in whole pixels and degrees:
/// `translate(x,y) rotate(a)`, either part alone, or `none`.
pub open spec fn transform_text(t: Transform) -> Seq<char> {
    match (t.translation, t.rotation) {
        (Some(v), Some(a)) => "translate("@ + integer_text(whole(v.x)) + ","@ + integer_text(whole(v.y))
            + ")"@ + " rotate("@ + integer_text(whole(a)) + ")"@,
        (Some(v), None) => "translate("@ + integer_text(whole(v.x)) + ","@ + integer_text(whole(v.y))
            + ")"@,
        (None, Some(a)) => "rotate("@ + integer_text(whole(a)) + ")"@,
        (None, None) => "none"@,
    }
}

fn whole_of(v: Scalar) -> (r: i64)
    ensures
        r == whole(v),
{
    if v >= 0 {
        v / UNIT
    } else {
        -((-(v as i128)) / (UNIT as i128)) as i64
    }
}

impl Transform {
    /// The markup of the transform (see [`transform_text`]).
    pub fn text(&self) -> (r: String)
        ensures
            r@ == transform_text(*self),
    {
        let mut s = String::new();
        match (self.translation, self.rotation) {
            (Some(v), rotation) => {
                s.append("translate(");
                push_integer(&mut s, whole_of(v.x));
                s.append(",");
                push_integer(&mut s, whole_of(v.y));
                s.append(")");
                match rotation {
                    Some(a) => {
                        s.append(" rotate(");
                        push_integer(&mut s, whole_of(a));
                        s.append(")");
                    },
                    None => {},
                }
            },
            (None, Some(a)) => {
                s.append("rotate(");
                push_integer(&mut s, whole_of(a));
                s.append(")");
            },
            (None, None) => {
                s.append("none");
            },
        }
        assert(s@ =~= transform_text(*self));
        s
    }
}

} // verus!
