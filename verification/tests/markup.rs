use baelyks_shell::markup::{
    flatten, flatten_traverser, group, markup, parse_markup, BodyElement, MarkupError, MarkupTag, RichTextSpan,
    RichTextSpanStyle, UngroupedBodyElement,
};

#[test]
fn test_other() {
    let text = r#"<asdf>Hello!</asdf>"#;
    let (_, parsed) = parse_markup(&text).unwrap();
    assert_eq!(parsed, vec![MarkupTag::Text("Hello!".to_string())])
}

#[test]
fn test_text() {
    let text = r#"some text"#;
    let (_, parsed) = parse_markup(&text).unwrap();
    assert_eq!(parsed, vec![MarkupTag::Text("some text".to_string())])
}

#[test]
fn test_markup() {
    let text = r#"<b>Bold</b><i>Italic</i><u>Underline</u>"#;
    let (_, parsed) = parse_markup(&text).unwrap();
    assert_eq!(
        parsed,
        vec![
            MarkupTag::Bold(vec![MarkupTag::Text("Bold".into())]),
            MarkupTag::Italic(vec![MarkupTag::Text("Italic".into())]),
            MarkupTag::Underline(vec![MarkupTag::Text("Underline".into())])
        ]
    )
}

#[test]
fn test_nesting() {
    let text = r#"<b>Some <i>bold and italic</i> text</b>"#;
    let (_, parsed) = parse_markup(&text).unwrap();
    assert_eq!(
        parsed,
        vec![MarkupTag::Bold(vec![
            MarkupTag::Text("Some ".into()),
            MarkupTag::Italic(vec![MarkupTag::Text("bold and italic".into())]),
            MarkupTag::Text(" text".into())
        ]),]
    );
    let flattened = flatten(parsed);
    assert_eq!(
        flattened,
        vec![
            UngroupedBodyElement::Span(RichTextSpan {
                style: RichTextSpanStyle {
                    bold: true,
                    italic: false,
                    underline: false,
                },
                text: "Some ".into(),
            }),
            UngroupedBodyElement::Span(RichTextSpan {
                style: RichTextSpanStyle {
                    bold: true,
                    italic: true,
                    underline: false,
                },
                text: "bold and italic".into(),
            }),
            UngroupedBodyElement::Span(RichTextSpan {
                style: RichTextSpanStyle {
                    bold: true,
                    italic: false,
                    underline: false,
                },
                text: " text".into(),
            })
        ]
    );
    let grouped = group(flattened);
    assert_eq!(
        grouped,
        vec![BodyElement::RichText(vec![
            RichTextSpan {
                style: RichTextSpanStyle {
                    bold: true,
                    italic: false,
                    underline: false,
                },
                text: "Some ".into(),
            },
            RichTextSpan {
                style: RichTextSpanStyle {
                    bold: true,
                    italic: true,
                    underline: false,
                },
                text: "bold and italic".into(),
            },
            RichTextSpan {
                style: RichTextSpanStyle {
                    bold: true,
                    italic: false,
                    underline: false,
                },
                text: " text".into(),
            }
        ])]
    );
}

#[test]
fn test_hyperlink() {
    let text = r#"<a href="example.com">Link text</a>"#;
    let (_, parsed) = parse_markup(&text).unwrap();
    assert_eq!(
        parsed,
        vec![MarkupTag::Hyperlink {
            href: "example.com".to_string(),
            children: vec![MarkupTag::Text("Link text".to_string())]
        }]
    )
}

#[test]
fn test_image() {
    let text_1 = r#"<img src="/path/to/image" alt="Alternative text"/>"#;
    let text_2 = r#"<img alt="Alternative text" src="/path/to/image"/>"#;
    let (_, parsed) = parse_markup(&text_1).unwrap();
    assert_eq!(
        parsed,
        vec![MarkupTag::Image {
            src: "/path/to/image".to_string(),
            alt: "Alternative text".to_string(),
        }]
    );
    let (_, parsed) = parse_markup(&text_2).unwrap();
    assert_eq!(
        parsed,
        vec![MarkupTag::Image {
            src: "/path/to/image".to_string(),
            alt: "Alternative text".to_string(),
        }]
    );
    let flattened = flatten(parsed);
    assert_eq!(
        flattened,
        vec![UngroupedBodyElement::Image {
            src: "/path/to/image".to_string(),
            alt: "Alternative text".to_string(),
        }]
    );
    let grouped = group(flattened);
    assert_eq!(
        grouped,
        vec![BodyElement::Image {
            src: "/path/to/image".to_string(),
            alt: "Alternative text".to_string(),
        }]
    );
}

fn plain(text: &str) -> RichTextSpan {
    RichTextSpan {
        style: RichTextSpanStyle { bold: false, italic: false, underline: false },
        text: text.to_string(),
    }
}

#[test]
fn markup_empty_body_has_no_blocks() {
    assert_eq!(markup(String::new()), vec![]);
}

#[test]
fn markup_plain_text_is_one_paragraph() {
    assert_eq!(
        markup("hello world".to_string()),
        vec![BodyElement::RichText(vec![plain("hello world")])]
    );
}

#[test]
fn markup_unterminated_tag_falls_back_to_plain_text() {
    // "<b" runs into the end of the text before its '>' is found
    let text = "see <b".to_string();
    assert_eq!(parse_markup(&text), Err(MarkupError::Incomplete));
    assert_eq!(markup(text.clone()), vec![BodyElement::RichText(vec![plain("see <b")])]);
}

#[test]
fn markup_stray_angle_bracket_is_a_mismatch() {
    // "<>" has an empty tag name, and text cannot start with '<'
    assert_eq!(parse_markup("a <> b"), Err(MarkupError::Mismatch));
}

#[test]
fn markup_closing_tag_runs_to_next_angle_bracket() {
    let (rem, parsed) = parse_markup("<b>x</bold> y").unwrap();
    assert_eq!(rem, "");
    assert_eq!(
        parsed,
        vec![MarkupTag::Bold(vec![MarkupTag::Text("x".into())]), MarkupTag::Text(" y".into())]
    );
}

#[test]
fn markup_image_splits_paragraphs() {
    let body = markup(r#"before<img src="a.png" alt="A"/>after"#.to_string());
    assert_eq!(
        body,
        vec![
            BodyElement::RichText(vec![plain("before")]),
            BodyElement::Image { src: "a.png".into(), alt: "A".into() },
            BodyElement::RichText(vec![plain("after")]),
        ]
    );
}

#[test]
fn markup_hyperlink_keeps_style_of_surroundings() {
    let body = markup(r#"<u><a href="x">link</a></u>"#.to_string());
    assert_eq!(
        body,
        vec![BodyElement::RichText(vec![RichTextSpan {
            style: RichTextSpanStyle { bold: false, italic: false, underline: true },
            text: "link".into(),
        }])]
    );
}

#[test]
fn markup_unknown_tag_keeps_raw_contents() {
    let (_, parsed) = parse_markup("<span><b>x</b></span>").unwrap();
    assert_eq!(parsed, vec![MarkupTag::Text("<b>x</b>".into())]);
}

#[test]
fn markup_attribute_whitespace_is_skipped() {
    let (_, parsed) = parse_markup(r#"<img  alt = "A"  src="p" />"#).unwrap();
    assert_eq!(parsed, vec![MarkupTag::Image { src: "p".into(), alt: "A".into() }]);
}

#[test]
fn markup_image_without_alt_is_not_an_image() {
    // the image fails, and as a tag named "img" it finds no closing tag
    assert_eq!(parse_markup(r#"<img src="p"/>"#), Err(MarkupError::Incomplete));
}

fn bold_x() -> Vec<MarkupTag> {
    vec![MarkupTag::Bold(vec![MarkupTag::Text("x".to_string())])]
}

fn plain_y() -> Vec<MarkupTag> {
    vec![MarkupTag::Text("y".to_string())]
}

#[test]
fn flattening_goes_tag_by_tag() {
    let style = RichTextSpanStyle { bold: false, italic: true, underline: false };
    let mut both = bold_x();
    both.extend(plain_y());
    assert_eq!(
        flatten_traverser(both, style),
        [flatten_traverser(bold_x(), style), flatten_traverser(plain_y(), style)].concat()
    );
    let link = vec![MarkupTag::Hyperlink { href: "https://a.b".to_string(), children: plain_y() }];
    assert_eq!(flatten_traverser(link, style), flatten_traverser(plain_y(), style));
    assert_eq!(flatten_traverser(vec![], style), vec![]);
}
