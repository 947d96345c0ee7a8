use moxnotify::body::color_from_lowercase;
use moxnotify::links::url_anchors;
use moxnotify::body::{parse_color, parse_u8, ParsedColor, Rgba};

fn rgba(r: u8, g: u8, b: u8, a: u8) -> Option<ParsedColor> {
    Some(ParsedColor::Color(Rgba { r, g, b, a }))
}

/// The alpha channel of an `rgba()` colour, as the renderer converts it.
fn resolved(c: Option<ParsedColor>) -> Option<Rgba> {
    match c {
        Some(ParsedColor::Color(c)) => Some(c),
        Some(ParsedColor::WithAlpha { r, g, b, alpha }) => alpha
            .parse::<f32>()
            .ok()
            .map(|a| Rgba { r, g, b, a: (a * 255.0) as u8 }),
        None => None,
    }
}

#[test]
fn test_named_colors() {
    assert_eq!(parse_color("red"), rgba(255, 0, 0, 255));
    assert_eq!(parse_color("green"), rgba(0, 128, 0, 255));
    assert_eq!(parse_color("blue"), rgba(0, 0, 255, 255));
    assert_eq!(parse_color("black"), rgba(0, 0, 0, 255));
    assert_eq!(parse_color("white"), rgba(255, 255, 255, 255));

    assert_eq!(parse_color("Red"), rgba(255, 0, 0, 255));
    assert_eq!(parse_color("BLUE"), rgba(0, 0, 255, 255));
}

#[test]
fn test_invalid_named_color() {
    assert_eq!(parse_color("notacolor"), None);
}

#[test]
fn test_hex_colors() {
    assert_eq!(parse_color("#f00"), rgba(255, 0, 0, 255));

    assert_eq!(parse_color("#f008"), rgba(255, 0, 0, 136));

    assert_eq!(parse_color("#ff0000"), rgba(255, 0, 0, 255));

    assert_eq!(parse_color("#ff000080"), rgba(255, 0, 0, 128));
}

#[test]
fn test_invalid_hex_colors() {
    assert!(parse_color("#f0").is_none());
    assert!(parse_color("#xyz").is_none());
}

#[test]
fn test_rgb_colors() {
    assert_eq!(parse_color("rgb(255, 0, 0)"), rgba(255, 0, 0, 255));
    assert_eq!(parse_color("rgb(0, 255, 0)"), rgba(0, 255, 0, 255));
    assert_eq!(parse_color("rgb(0, 0, 255)"), rgba(0, 0, 255, 255));
}

#[test]
fn test_rgba_colors() {
    assert_eq!(
        resolved(parse_color("rgba(255, 0, 0, 1.0)")),
        Some(Rgba { r: 255, g: 0, b: 0, a: 255 })
    );
    assert_eq!(
        resolved(parse_color("rgba(255, 0, 0, 0.5)")),
        Some(Rgba { r: 255, g: 0, b: 0, a: 127 })
    );
    assert_eq!(
        resolved(parse_color("rgba(255, 0, 0, 0.0)")),
        Some(Rgba { r: 255, g: 0, b: 0, a: 0 })
    );
}

#[test]
fn test_invalid_rgb_rgba() {
    assert!(parse_color("rgb(255, 0)").is_none());
    assert!(parse_color("rgba(255, 0, 0)").is_none());

    assert!(parse_color("rgb(300, 0, 0)").is_none());
}

#[test]
fn test_color_parsing_edge_cases() {
    assert_eq!(parse_color("  rgb(255, 0, 0)  "), rgba(255, 0, 0, 255));

    assert_eq!(parse_color("rgb(255,0,0)"), rgba(255, 0, 0, 255));
}

#[test]
fn rgba_keeps_alpha_text() {
    assert_eq!(
        parse_color("rgba(1, 2, 3,  0.25 )"),
        Some(ParsedColor::WithAlpha { r: 1, g: 2, b: 3, alpha: "0.25".to_string() })
    );
}

#[test]
fn decimal_bytes() {
    let p = |s: &str| parse_u8(&s.chars().collect());
    assert_eq!(p("0"), Some(0));
    assert_eq!(p("+7"), Some(7));
    assert_eq!(p("255"), Some(255));
    assert_eq!(p("00042"), Some(42));
    assert_eq!(p("256"), None);
    assert_eq!(p("+"), None);
    assert_eq!(p(""), None);
    assert_eq!(p("-1"), None);
    assert_eq!(p("1a"), None);
}

#[test]
fn non_ascii_hex_is_refused() {
    assert_eq!(parse_color("#ééé"), None);
}

use moxnotify::body::{attribute_change, body_spans, Anchor, FontStyle, Stretch, StyleChange};
use moxnotify::markup::Parser;

fn change(k: &str, v: &str) -> Option<StyleChange> {
    attribute_change(&k.to_string(), &v.to_string())
}

#[test]
fn span_attributes_change_style() {
    assert_eq!(change("weight", "bold"), Some(StyleChange::Weight(700)));
    assert_eq!(change("font_weight", "normal"), Some(StyleChange::Weight(400)));
    assert_eq!(change("weight", "300"), Some(StyleChange::Weight(300)));
    assert_eq!(change("weight", "350"), Some(StyleChange::Weight(400)));
    assert_eq!(change("weight", "heavy"), None);
    assert_eq!(change("style", "italic"), Some(StyleChange::Style(FontStyle::Italic)));
    assert_eq!(change("font_style", "slanted"), None);
    assert_eq!(change("stretch", "semi-expanded"), Some(StyleChange::Stretch(Stretch::SemiExpanded)));
    assert_eq!(change("face", "Mono"), Some(StyleChange::Family("Mono".to_string())));
    assert_eq!(change("size", "12.5"), Some(StyleChange::FontSize("12.5".to_string())));
    assert_eq!(
        change("color", "red"),
        Some(StyleChange::Color(ParsedColor::Color(Rgba { r: 255, g: 0, b: 0, a: 255 })))
    );
    assert_eq!(change("color", "nonsense"), None);
    assert_eq!(change("underline", "single"), None);
}

#[test]
fn body_tags_become_styled_spans_and_links() {
    let mut parser = Parser::new("A <b>bold</b> <a href=\"https://x\">link</a><span weight=\"bold\" color=\"blue\">s</span>".to_string());
    let tags = parser.parse();
    let (spans, anchors) = body_spans(&tags);
    assert_eq!(spans.len(), tags.len());
    assert_eq!(spans[0].text, "A ");
    assert!(spans[0].changes.is_empty());
    assert_eq!(spans[1].changes, vec![StyleChange::Weight(700)]);
    let last = spans.last().unwrap();
    assert_eq!(last.text, "s");
    assert_eq!(last.changes.len(), 2);
    assert_eq!(anchors.len(), 1);
    let Anchor { href, line, start, end } = &anchors[0];
    assert_eq!(href, "https://x");
    assert_eq!(*line, 0);
    assert_eq!(*end, *start + 3);
}

/// The lines that a body's styled spans lay out as.
fn lines_of(markup: &str) -> Vec<String> {
    let mut parser = Parser::new(markup.to_string());
    let tags = parser.parse();
    let (spans, _) = body_spans(&tags);
    let text: String = spans.iter().map(|s| s.text.as_str()).collect();
    text.split('\n').map(|l| l.to_string()).collect()
}

#[test]
fn test_body() {
    let lines = lines_of(
        "Hello world\n<b>Hello world</b>\n<i>Hello world</i>\n<a href=\"\">Hello world</a>\n<img alt=\"Hello world\" href=\"/tmp/image.png\">",
    );
    assert_eq!(lines.first().unwrap(), "Hello world");
    assert_eq!(lines.get(1).unwrap(), "Hello world");
    assert_eq!(lines.get(2).unwrap(), "Hello world");
    assert_eq!(lines.get(3).unwrap(), "Hello world");
    assert_eq!(lines.get(4).unwrap(), "Hello world");
    assert_eq!(lines.len(), 5);
}

#[test]
fn test_attribute_inheritance() {
    let lines = lines_of(
        "<span color=\"red\" weight=\"bold\" style=\"italic\" font_size=\"18\">Multi-styled text</span>",
    );
    assert_eq!(lines.len(), 1);
    assert_eq!(lines[0], "Multi-styled text");
}

/// The links of a body, as `Body::set_text` records them.
fn anchors_of(markup: &str) -> Vec<Anchor> {
    let mut parser = Parser::new(markup.to_string());
    let tags = parser.parse();
    body_spans(&tags).1
}

#[test]
fn test_plain_url_detection() {
    let anchors = anchors_of("Check this website: https://example.com for more info.");
    assert_eq!(anchors.len(), 1);
    assert_eq!(anchors[0].href.as_str(), "https://example.com");
    assert_eq!(anchors[0].line, 0);
}

#[test]
fn test_multiple_urls() {
    let anchors = anchors_of("First URL: https://example.com and second URL: http://test.org!");
    assert_eq!(anchors.len(), 2);
    assert_eq!(anchors[0].href.as_str(), "https://example.com");
    assert_eq!(anchors[1].href.as_str(), "http://test.org");
}

#[test]
fn plain_and_tagged_links_in_order() {
    let anchors = anchors_of("<a href=\"https://a\">a</a> see\nalso WWW.Example.org/x, xhttp://no");
    assert_eq!(
        anchors,
        vec![
            Anchor { href: "https://a".to_string(), line: 0, start: 0, end: 0 },
            Anchor { href: "WWW.Example.org/x".to_string(), line: 1, start: 5, end: 21 },
        ]
    );
}

#[test]
fn raw_body_lays_out() {
    let (spans, anchors) =
        moxnotify::body::body_layout("<b>Hi</b> see https://example.com".to_string()).unwrap();
    assert_eq!(spans.len(), 2);
    assert_eq!(spans[0].changes, vec![StyleChange::Weight(700)]);
    assert_eq!(anchors.len(), 1);
    assert_eq!(anchors[0].href, "https://example.com");
    assert_eq!((anchors[0].line, anchors[0].start), (0, 7));
}

#[test]
fn url_anchors_follow_the_pieces() {
    let pieces = vec!["see ".to_string(), " and\n".to_string(), "".to_string()];
    let urls = vec!["http://a.b".to_string(), "www.c.d".to_string()];
    assert_eq!(
        url_anchors(&pieces, &urls, (0, 0)),
        vec![
            Anchor { href: "http://a.b".to_string(), line: 0, start: 4, end: 13 },
            Anchor { href: "www.c.d".to_string(), line: 1, start: 0, end: 6 },
        ]
    );
}

#[test]
fn colour_from_lowercase_name() {
    let v: Vec<char> = "Red".chars().collect();
    assert_eq!(color_from_lowercase(&v, "red"), rgba(255, 0, 0, 255));
    let h: Vec<char> = "#0F0".chars().collect();
    assert_eq!(color_from_lowercase(&h, "#0f0"), rgba(0, 255, 0, 255));
}
