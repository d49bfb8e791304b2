use trikz::attributes::{Attribute, Attributes};
use trikz::keys;
use trikz::scalar::{Scalar, Vector2, UNIT};
use trikz::text::parse_scalar;
use trikz::style::{Color, Font, FontSize, Stroke, StrokeStyle, Style, Transform};

fn s(v: f64) -> Scalar {
    (v * UNIT as f64).round() as Scalar
}

fn text(attributes: &Attributes, key: &str) -> String {
    attributes.get(key).unwrap().text()
}

#[test]
fn font_into_value() {
    assert_eq!(FontSize::XXS.text(), "xx-small");
    assert_eq!(FontSize::XS.text(), "x-small");
    assert_eq!(FontSize::S.text(), "small");
    assert_eq!(FontSize::M.text(), "medium");
    assert_eq!(FontSize::L.text(), "large");
    assert_eq!(FontSize::XL.text(), "x-large");
    assert_eq!(FontSize::XXL.text(), "xx-large");
    assert_eq!(FontSize::XXXL.text(), "xxx-large");
}

#[test]
fn write_attribute() {
    let mut attributes = Attributes::new();
    let font = Font::default();
    font.write(&mut attributes);

    assert_eq!(text(&attributes, keys::FONT_SIZE), "medium");
}

#[test]
fn stroke_build() {
    let stroke = Stroke::default();

    assert_eq!(stroke.color, None);
    assert_eq!(stroke.opacity, 100);
    assert_eq!(stroke.width, s(1.0));
    assert_eq!(stroke.style, StrokeStyle::Solid);

    let stroke = Stroke::new().dotted().width(s(3.5)).color(Color::Green);

    assert_eq!(stroke.color, Some(Color::Green));
    assert_eq!(stroke.opacity, 100);
    assert_eq!(stroke.width, s(3.5));
    assert_eq!(stroke.style, StrokeStyle::Dotted);

    let stroke = Stroke::new().dashdotted().opacity(30);

    assert_eq!(stroke.color, None);
    assert_eq!(stroke.opacity, 30);
    assert_eq!(stroke.width, s(1.0));
    assert_eq!(stroke.style, StrokeStyle::Dashdotted);
    assert_eq!(stroke.markers, [None, None, None]);

    let sm = "start-marker".to_string();
    let mm = "mid-marker".to_string();
    let em = "end-marker".to_string();
    let stroke = Stroke::new()
        .dashed()
        .opacity(124)
        .marker_mid(mm.clone())
        .marker_end(em.clone())
        .marker_start(sm.clone())
        .color(Color::Rgb(10, 20, 30));

    assert_eq!(stroke.color, Some(Color::Rgb(10, 20, 30)));
    assert_eq!(stroke.opacity, 100);
    assert_eq!(stroke.width, s(1.0));
    assert_eq!(stroke.style, StrokeStyle::Dashed);
    assert_eq!(stroke.markers, [Some(sm), Some(mm), Some(em)]);
}

#[test]
fn stroke_display() {
    let mut attributes = Attributes::new();
    let stroke = Stroke::default();
    stroke.to_attributes(&mut attributes);

    assert!(attributes.is_empty());

    let stroke = Stroke::new().dotted().width(s(3.5)).color(Color::Green);
    stroke.to_attributes(&mut attributes);

    assert_eq!(text(&attributes, keys::STROKE), "green");
    assert_eq!(text(&attributes, keys::STROKE_OPACITY), "100%");
    assert_eq!(text(&attributes, keys::STROKE_WIDTH), "3.5");
    assert_eq!(text(&attributes, keys::STROKE_STYLE), '1'.to_string());

    let stroke = Stroke::new().color(Color::Red).dashdotted().opacity(30);
    stroke.to_attributes(&mut attributes);

    assert_eq!(text(&attributes, keys::STROKE), "red");
    assert_eq!(text(&attributes, keys::STROKE_OPACITY), "30%");
    assert_eq!(text(&attributes, keys::STROKE_WIDTH), "1");
    assert_eq!(text(&attributes, keys::STROKE_STYLE), format!("{} {} {} {}", '4', '1', '4', '1'));

    let marker_id = "arrow".to_string();
    let stroke = Stroke::new()
        .dashed()
        .opacity(124)
        .marker_end(marker_id.clone())
        .color(Color::Rgb(10, 20, 30));

    stroke.to_attributes(&mut attributes);

    assert_eq!(text(&attributes, keys::STROKE), "#0A141E");
    assert_eq!(text(&attributes, keys::STROKE_OPACITY), "100%");
    assert_eq!(text(&attributes, keys::STROKE_WIDTH), "1");
    assert_eq!(text(&attributes, keys::STROKE_STYLE), format!("{} {}", '4', '1'));
    assert_eq!(text(&attributes, keys::MARKER_END), format!("url(#{})", marker_id));
}

#[test]
fn color_text() {
    assert_eq!(Color::Black.text(), "black");
    assert_eq!(Color::Blue.text(), "blue");
    assert_eq!(Color::Cyan.text(), "cyan");
    assert_eq!(Color::Gray.text(), "gray");
    assert_eq!(Color::Magenta.text(), "magenta");
    assert_eq!(Color::White.text(), "white");
    assert_eq!(Color::Rgb(255, 0, 171).text(), "#FF00AB");
}

#[test]
fn stroke_style_text() {
    assert_eq!(StrokeStyle::Dashed.text(), "4 1");
    assert_eq!(StrokeStyle::Dashdotted.text(), "4 1 4 1");
    assert_eq!(StrokeStyle::Dotted.text(), "1");
    assert_eq!(StrokeStyle::Solid.text(), "none");
    assert_eq!(Stroke::new().style(StrokeStyle::Dotted).style, StrokeStyle::Dotted);
}

#[test]
fn font_sizes() {
    assert_eq!(Font::new().size, FontSize::M);
    assert_eq!(Font::new().xxs().size, FontSize::XXS);
    assert_eq!(Font::new().xs().size, FontSize::XS);
    assert_eq!(Font::new().s().size, FontSize::S);
    assert_eq!(Font::new().m().size, FontSize::M);
    assert_eq!(Font::new().l().size, FontSize::L);
    assert_eq!(Font::new().xl().size, FontSize::XL);
    assert_eq!(Font::new().xxl().size, FontSize::XXL);
    assert_eq!(Font::new().xxxl().size, FontSize::XXXL);
}

#[test]
fn style_writes_fill_then_representation() {
    let mut attributes = Attributes::new();
    Style::<Stroke>::new().to_attributes(&mut attributes);
    assert!(attributes.is_empty());

    let style = Style::new().fill(Color::Green).stroke(Stroke::new().dashed().color(Color::Magenta));
    style.to_attributes(&mut attributes);
    assert_eq!(text(&attributes, keys::FILL), "green");
    assert_eq!(text(&attributes, keys::STROKE), "magenta");
    assert_eq!(attributes.len(), 5);

    let mut attributes = Attributes::new();
    Style::new().fill(Color::White).font(Font::new().xl()).to_attributes(&mut attributes);
    assert_eq!(text(&attributes, keys::FILL), "white");
    assert_eq!(text(&attributes, keys::FONT_SIZE), "x-large");
}

#[test]
fn transform_into_value() {
    assert_eq!(
        Transform { translation: Some(Vector2::new(s(1.0), s(2.0))), rotation: Some(s(90.0)) }.text(),
        "translate(1,2) rotate(90)"
    );
    assert_eq!(
        Transform { translation: Some(Vector2::new(s(1.0), s(2.0))), rotation: None }.text(),
        "translate(1,2)"
    );
    assert_eq!(Transform { translation: None, rotation: Some(s(90.0)) }.text(), "rotate(90)");
    assert_eq!(Transform { translation: None, rotation: None }.text(), "none");
}

#[test]
fn transform_drops_fractions() {
    let t = Transform { translation: Some(Vector2::new(s(-1.75), s(2.5))), rotation: Some(s(-45.9)) };
    assert_eq!(t.text(), "translate(-1,2) rotate(-45)");
}

#[test]
fn scalar_text_forms() {
    assert_eq!(Attribute::Scalar(s(1.0)).text(), "1");
    assert_eq!(Attribute::Scalar(s(-2.5)).text(), "-2.5");
    assert_eq!(Attribute::Scalar(s(0.125)).text(), "0.125");
    assert_eq!(Attribute::Scalar(s(-0.05)).text(), "-0.05");
    assert_eq!(Attribute::Scalar(1).text(), "0.000001");
    assert_eq!(Attribute::Scalar(0).text(), "0");
    assert_eq!(Attribute::Scalar(i64::MIN).text(), "-9223372036854.775808");
}

#[test]
fn parse_decimal_text() {
    assert_eq!(parse_scalar("5"), Some(s(5.0)));
    assert_eq!(parse_scalar("-2.5"), Some(s(-2.5)));
    assert_eq!(parse_scalar("0.125"), Some(s(0.125)));
    assert_eq!(parse_scalar("007.50"), Some(s(7.5)));
    assert_eq!(parse_scalar(".5"), Some(s(0.5)));
    assert_eq!(parse_scalar("3."), Some(s(3.0)));
    assert_eq!(parse_scalar("1.23456789"), Some(1_234_567));
    assert_eq!(parse_scalar("-0"), Some(0));
    assert_eq!(parse_scalar(""), None);
    assert_eq!(parse_scalar("-"), None);
    assert_eq!(parse_scalar("."), None);
    assert_eq!(parse_scalar("1.2.3"), None);
    assert_eq!(parse_scalar("wide"), None);
    assert_eq!(parse_scalar("1e3"), None);
    assert_eq!(parse_scalar("99999999999999"), None);
    assert_eq!(parse_scalar("-9223372036854.775808"), Some(i64::MIN));
}

#[test]
fn text_of_a_scalar_reads_back() {
    for v in [0, 1, -1, s(3.5), s(-12.34), 1_000_001, i64::MAX, i64::MIN] {
        assert_eq!(parse_scalar(&Attribute::Scalar(v).text()), Some(v));
    }
}
