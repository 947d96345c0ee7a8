use moxnotify::markup::{Parser, Tag};

#[test]
fn test_bold_tag() {
    let mut parser = Parser::new("<b>Bold text</b>".to_string());
    let result = parser.parse();
    assert_eq!(result.len(), 1);
    if let Tag::Bold(content) = &result[0] {
        assert_eq!(content, "Bold text");
    } else {
        panic!("Expected Bold tag");
    }
}

#[test]
fn test_underline_tag() {
    let mut parser = Parser::new("<u>Underlined text</u>".to_string());
    let result = parser.parse();
    assert_eq!(result.len(), 1);
    if let Tag::Underline(content) = &result[0] {
        assert_eq!(content, "Underlined text");
    } else {
        panic!("Expected Underline tag");
    }
}

#[test]
fn test_img_tag() {
    let mut parser = Parser::new("<img src=\"/tmp/image.png\" alt=\"Image\" />".to_string());
    let result = parser.parse();
    assert_eq!(result.len(), 1);
    if let Tag::Image { alt, src } = &result[0] {
        assert_eq!(alt, "Image");
        assert_eq!(src, "/tmp/image.png");
    } else {
        panic!("Expected Underline tag");
    }
}

#[test]
fn test_text_with_newlines() {
    let mut parser = Parser::new("Line 1\nLine 2\n<b>Bold</b>".to_string());
    let result = parser.parse();
    assert_eq!(result.len(), 2);
    if let Tag::Text(content) = &result[0] {
        assert_eq!(content, "Line 1\nLine 2\n");
    } else {
        panic!("Expected Text tag");
    }
    if let Tag::Bold(content) = &result[1] {
        assert_eq!(content, "Bold");
    } else {
        panic!("Expected Bold tag");
    }
}

#[test]
fn test_mixed_content() {
    let html = "Text <b>bold</b> more <i>italic</i>";
    let mut parser = Parser::new(html.to_string());
    let result = parser.parse();
    assert_eq!(result.len(), 4);
    if let Tag::Text(content) = &result[0] {
        assert_eq!(content, "Text ");
    } else {
        panic!("Expected Text tag");
    }
    if let Tag::Bold(content) = &result[1] {
        assert_eq!(content, "bold");
    } else {
        panic!("Expected Bold tag");
    }
    if let Tag::Text(content) = &result[2] {
        assert_eq!(content, " more ");
    } else {
        panic!("Expected Text tag");
    }
    if let Tag::Italic(content) = &result[3] {
        assert_eq!(content, "italic");
    } else {
        panic!("Expected Italic tag");
    }
}

#[test]
fn test_anchor_tag_with_position() {
    let html = "<a href=\"https://example.com\">Link text</a>";
    let mut parser = Parser::new(html.to_string());
    let result = parser.parse();
    assert_eq!(result.len(), 1);
    if let Tag::Anchor {
        href,
        text,
        position,
    } = &result[0]
    {
        assert_eq!(href, "https://example.com");
        assert_eq!(text, "Link text");
        assert_eq!(position.line, 0);
        assert_eq!(position.column, 0);
    } else {
        panic!("Expected Anchor tag");
    }
}

#[test]
fn test_multiline_with_anchor() {
    let html = "Line 1\n<a href=\"link\">Line 2</a>\nLine 3";
    let mut parser = Parser::new(html.to_string());
    let result = parser.parse();
    assert_eq!(result.len(), 3);
    if let Tag::Text(content) = &result[0] {
        assert_eq!(content, "Line 1\n");
    } else {
        panic!("Expected Text tag");
    }
    if let Tag::Anchor { text, position, .. } = &result[1] {
        assert_eq!(text, "Line 2");
        assert_eq!(position.line, 1);
        assert_eq!(position.column, 0);
    } else {
        panic!("Expected Anchor tag");
    }
    if let Tag::Text(content) = &result[2] {
        assert_eq!(content, "\nLine 3");
    } else {
        panic!("Expected Text tag");
    }
}

#[test]
fn test_text_column_counting() {
    let html = "Text <b>bold</b> <a href=\"link\">anchor</a> after";
    let mut parser = Parser::new(html.to_string());
    let result = parser.parse();

    assert_eq!(result.len(), 5);

    if let Tag::Anchor { position, .. } = &result[3] {
        assert_eq!(position.column, 10);
    } else {
        panic!("Expected Anchor tag");
    }
}

#[test]
fn test_complex_markup_with_positions() {
    let html =
        "<b>Bold</b> text <i>and</i> <a href=\"#1\">link 1</a> and <a href=\"#2\">link 2</a>";
    let mut parser = Parser::new(html.to_string());
    let result = parser.parse();

    assert_eq!(result.len(), 7);

    if let Tag::Anchor { text, position, .. } = &result[4] {
        assert_eq!(text, "link 1");
        assert_eq!(position.column, 14);
    } else {
        panic!("Expected first Anchor tag");
    }

    if let Tag::Anchor { text, position, .. } = &result[6] {
        assert_eq!(text, "link 2");
        assert_eq!(position.column, 25);
    } else {
        panic!("Expected second Anchor tag");
    }
}

#[test]
fn test_complex_multiline_markup_with_positions() {
    let html = "<u>underline</u>\n<i>italic</i>\n<b>bold</b>\n<a href=\"https://github.com/unixpariah/moxnotify\">github</a>\n<img alt=\"image\" href=\"\"/>";
    let mut parser = Parser::new(html.to_string());
    let result = parser.parse();

    assert_eq!(result.len(), 9, "Expected 9 tags in total");

    if let Tag::Underline(content) = &result[0] {
        assert_eq!(content, "underline", "Expected underline content");
    } else {
        panic!("Expected Underline tag at position 0");
    }

    if let Tag::Text(content) = &result[1] {
        assert_eq!(content, "\n", "Expected newline after underline");
    } else {
        panic!("Expected Text tag with newline at position 1");
    }

    if let Tag::Italic(content) = &result[2] {
        assert_eq!(content, "italic", "Expected italic content");
    } else {
        panic!("Expected Italic tag at position 2");
    }

    if let Tag::Text(content) = &result[3] {
        assert_eq!(content, "\n", "Expected newline after italic");
    } else {
        panic!("Expected Text tag with newline at position 3");
    }

    if let Tag::Bold(content) = &result[4] {
        assert_eq!(content, "bold", "Expected bold content");
    } else {
        panic!("Expected Bold tag at position 4");
    }

    if let Tag::Text(content) = &result[5] {
        assert_eq!(content, "\n", "Expected newline after bold");
    } else {
        panic!("Expected Text tag with newline at position 5");
    }

    if let Tag::Anchor {
        href,
        text,
        position,
    } = &result[6]
    {
        assert_eq!(
            href, "https://github.com/unixpariah/moxnotify",
            "Expected correct href"
        );
        assert_eq!(text, "github", "Expected anchor text");
        assert_eq!(position.line, 3, "Expected anchor on line 3");
        assert_eq!(position.column, 0)
    } else {
        panic!("Expected Anchor tag at position 6");
    }

    if let Tag::Text(content) = &result[7] {
        assert_eq!(content, "\n", "Expected newline after anchor");
    } else {
        panic!("Expected Text tag with newline at position 7");
    }

    if let Tag::Image { alt, src } = &result[8] {
        assert_eq!(alt, "image", "Expected image alt text");
        assert_eq!(src, "", "Expected empty src attribute");
    } else {
        panic!("Expected Image tag at position 8");
    }
}

#[test]
fn test_span_parser_basics() {
    let mut parser = Parser::new(String::from("<span color=\"red\">Red text</span>"));
    let tags = parser.parse();

    assert_eq!(tags.len(), 1);
    match &tags[0] {
        Tag::Span { text, attributes } => {
            assert_eq!(text, "Red text");
            assert_eq!(attributes.len(), 1);
            assert_eq!(attributes.get("color").unwrap(), "red");
        }
        _ => panic!("Expected Tag::Span"),
    }
}

#[test]
fn test_span_parser_multiple_attributes() {
    let mut parser = Parser::new(String::from(
        "<span color=\"blue\" weight=\"bold\" style=\"italic\">Formatted text</span>",
    ));
    let tags = parser.parse();

    assert_eq!(tags.len(), 1);
    match &tags[0] {
        Tag::Span { text, attributes } => {
            assert_eq!(text, "Formatted text");
            assert_eq!(attributes.len(), 3);
            assert_eq!(attributes.get("color").unwrap(), "blue");
            assert_eq!(attributes.get("weight").unwrap(), "bold");
            assert_eq!(attributes.get("style").unwrap(), "italic");
        }
        _ => panic!("Expected Tag::Span"),
    }
}

#[test]
fn test_mixed_tags() {
    let mut parser = Parser::new(String::from(
        "Normal <b>bold</b><span color=\"red\">red</span> text",
    ));
    let tags = parser.parse();

    assert_eq!(tags.len(), 4);
    match &tags[0] {
        Tag::Text(text) => assert_eq!(text, "Normal "),
        _ => panic!("Expected Tag::Text"),
    }
    match &tags[1] {
        Tag::Bold(text) => assert_eq!(text, "bold"),
        _ => panic!("Expected Tag::Bold"),
    }
    match &tags[2] {
        Tag::Span { text, attributes } => {
            assert_eq!(text, "red");
            assert_eq!(attributes.get("color").unwrap(), "red");
        }
        _ => panic!("Expected Tag::Span"),
    }
    match &tags[3] {
        Tag::Text(text) => assert_eq!(text, " text"),
        _ => panic!("Expected Tag::Text"),
    }
}

#[test]
fn markup_unclosed_tag_takes_rest() {
    let mut parser = Parser::new("<b>open".to_string());
    let result = parser.parse();
    assert_eq!(result, vec![Tag::Bold("open".to_string())]);
    assert!(parser.parse().is_empty());
}

#[test]
fn markup_lone_angle_is_text() {
    let mut parser = Parser::new("a < b".to_string());
    let result = parser.parse();
    assert_eq!(
        result,
        vec![
            Tag::Text("a ".to_string()),
            Tag::Text("<".to_string()),
            Tag::Text(" b".to_string())
        ]
    );
}

#[test]
fn markup_repeated_attribute_keeps_last_value() {
    let mut parser = Parser::new("<span a='1' a='2'>x</span>".to_string());
    let result = parser.parse();
    match &result[0] {
        Tag::Span { attributes, .. } => {
            assert_eq!(attributes.len(), 1);
            assert_eq!(attributes.get("a").unwrap(), "2");
        }
        _ => panic!("Expected Tag::Span"),
    }
}

#[test]
fn markup_anchor_offset_counts_bytes() {
    let mut parser = Parser::new("é<a href=\"x\">t</a>".to_string());
    let result = parser.parse();
    match &result[1] {
        Tag::Anchor { href, text, position } => {
            // The closing '>' is looked up by byte offset as a character index,
            // so after a two-byte character the tag ends one character early.
            assert_eq!(href, "");
            assert_eq!(text, ">t");
            assert_eq!(position.offset, 13);
            assert_eq!(position.column, 1);
        }
        _ => panic!("Expected Anchor"),
    }
}

#[test]
fn quoted_attribute_values_keep_spaces() {
    let mut parser = Parser::new("<img alt=\"Hello  world\" src=\"a b\">".to_string());
    let tags = parser.parse();
    assert_eq!(tags.len(), 1);
    match &tags[0] {
        Tag::Image { alt, src } => {
            assert_eq!(alt, "Hello  world");
            assert_eq!(src, "a b");
        }
        _ => panic!("expected an image"),
    }
}
