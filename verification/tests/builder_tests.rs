use termslides::builder::{BuildError, PresentationBuilder};
use termslides::elements::{ListItem, ListItemType};
use termslides::presentation::FooterGenerator;
use termslides::elements::{Code, MarkdownElement, ProgrammingLanguage, Table, TableRow};
use termslides::highlighting::CodeHighlighter;
use termslides::metadata::parse_color;
use termslides::presentation::{error_operations, starting_column, FooterContext, Presentation, RenderOperation, WindowSize};
use termslides::resources::Resources;
use termslides::style::{Color, Colors};
use termslides::text::Text;
use termslides::theme::{Alignment, FooterStyle, PresentationTheme};
use unicode_width::UnicodeWidthStr;

fn build_presentation(elements: Vec<MarkdownElement>) -> Presentation {
    let highlighter = CodeHighlighter::new("base16-ocean.dark").unwrap();
    let theme = PresentationTheme::default();
    let resources = Resources::new("/tmp");
    let builder = PresentationBuilder::new(&highlighter, &theme, &resources);
    builder.build(elements).expect("build failed")
}

fn is_visible(operation: &RenderOperation) -> bool {
    !matches!(
        operation,
        RenderOperation::ClearScreen
            | RenderOperation::SetColors(_)
            | RenderOperation::JumpToVerticalCenter
            | RenderOperation::JumpToSlideBottom
            | RenderOperation::JumpToWindowBottom
    )
}

fn line_text(operation: &RenderOperation) -> Option<String> {
    match operation {
        RenderOperation::RenderTextLine { line, .. } => {
            let mut out = String::new();
            for t in &line.texts {
                out.push_str(&t.chunk.text);
            }
            Some(out)
        }
        _ => None,
    }
}

fn op_shape(operation: &RenderOperation) -> String {
    match operation {
        RenderOperation::SetColors(_) => "set_colors".to_string(),
        RenderOperation::ClearScreen => "clear".to_string(),
        RenderOperation::RenderTextLine { .. } => {
            format!("text:{}", line_text(operation).unwrap())
        }
        RenderOperation::RenderPreformattedLine { text, .. } => format!("pre:{}", text),
        RenderOperation::RenderLineBreak => "break".to_string(),
        RenderOperation::RenderSeparator => "separator".to_string(),
        RenderOperation::RenderImage(img) => format!("image:{}", img.path),
        RenderOperation::JumpToVerticalCenter => "jump_center".to_string(),
        RenderOperation::JumpToSlideBottom => "jump_slide_bottom".to_string(),
        RenderOperation::JumpToWindowBottom => "jump_window_bottom".to_string(),
        RenderOperation::RenderDynamic(g) => format!("dynamic:{}", g.current_slide),
    }
}

#[test]
fn prelude_appears_once() {
    let elements = vec![
        MarkdownElement::FrontMatter("author: bob".to_string()),
        MarkdownElement::Heading { text: Text::plain("hello".to_string()), level: 1 },
        MarkdownElement::Comment("end_slide".to_string()),
        MarkdownElement::Heading { text: Text::plain("bye".to_string()), level: 1 },
    ];
    let presentation = build_presentation(elements);
    for (index, slide) in presentation.slides.into_iter().enumerate() {
        let clear_screen_count = slide
            .render_operations
            .iter()
            .filter(|op| matches!(op, RenderOperation::ClearScreen))
            .count();
        let set_colors_count = slide
            .render_operations
            .iter()
            .filter(|op| matches!(op, RenderOperation::SetColors(_)))
            .count();
        assert_eq!(clear_screen_count, 1, "{clear_screen_count} clear screens in slide {index}");
        assert_eq!(set_colors_count, 1, "{set_colors_count} clear screens in slide {index}");
    }
}

#[test]
fn slides_start_with_one_newline() {
    let elements = vec![
        MarkdownElement::FrontMatter("author: bob".to_string()),
        MarkdownElement::Heading { text: Text::plain("hello".to_string()), level: 1 },
        MarkdownElement::Comment("end_slide".to_string()),
        MarkdownElement::Heading { text: Text::plain("bye".to_string()), level: 1 },
    ];
    let presentation = build_presentation(elements);
    assert_eq!(presentation.slides.len(), 3);

    // Don't process the intro slide as it's special
    let slides = presentation.slides.into_iter().skip(1);
    for slide in slides {
        let mut ops = slide.render_operations.into_iter().filter(is_visible);
        // We should start with a newline
        assert!(matches!(ops.next(), Some(RenderOperation::RenderLineBreak)));
        // And the second one should _not_ be a newline
        assert!(!matches!(ops.next(), Some(RenderOperation::RenderLineBreak)));
    }
}

#[test]
fn preformatted_blocks_account_for_unicode_widths() {
    let text = "\u{82f9}\u{679c}".to_string();
    let elements = vec![
        MarkdownElement::BlockQuote(vec![text.clone()]),
        MarkdownElement::Code(Code { contents: text.clone(), language: ProgrammingLanguage::Unknown }),
    ];
    let presentation = build_presentation(elements);
    let lengths: Vec<_> = presentation.slides[0]
        .render_operations
        .iter()
        .filter_map(|op| match op {
            RenderOperation::RenderPreformattedLine { block_length, unformatted_length, .. } => {
                Some((block_length, unformatted_length))
            }
            _ => None,
        })
        .collect();
    assert_eq!(lengths.len(), 2);
    let width = &text.width();
    assert_eq!(lengths[0], (width, width));
    assert_eq!(lengths[1], (width, width));
}

#[test]
fn table_layout_pads_cells_to_column_widths() {
    let table = Table {
        header: TableRow(vec![Text::plain("a".to_string()), Text::plain("bb".to_string())]),
        rows: vec![TableRow(vec![Text::plain("x".to_string()), Text::plain("y".to_string())])],
    };
    let presentation = build_presentation(vec![MarkdownElement::Table(table)]);
    let lines: Vec<String> = presentation.slides[0]
        .render_operations
        .iter()
        .filter_map(line_text)
        .collect();
    assert_eq!(lines.len(), 3);
    assert_eq!(lines[0], "a \u{2502} bb");
    assert_eq!(lines[1], "\u{2500}\u{2500}\u{253c}\u{2500}\u{2500}\u{2500}\u{2500}");
    assert_eq!(lines[2], "x \u{2502} y ");
}

#[test]
fn conflicting_theme_name_and_path_is_a_metadata_error() {
    let elements = vec![MarkdownElement::FrontMatter(
        "theme:\n  name: dark\n  path: some-theme.yaml".to_string(),
    )];
    let highlighter = CodeHighlighter::new("base16-ocean.dark").unwrap();
    let theme = PresentationTheme::default();
    let resources = Resources::new("/tmp");
    let builder = PresentationBuilder::new(&highlighter, &theme, &resources);
    let result = builder.build(elements);
    assert!(matches!(result, Err(BuildError::InvalidMetadata(_))));
}

#[test]
fn unknown_theme_path_is_a_theme_error() {
    let elements =
        vec![MarkdownElement::FrontMatter("theme:\n  path: missing.yaml".to_string())];
    let highlighter = CodeHighlighter::new("base16-ocean.dark").unwrap();
    let theme = PresentationTheme::default();
    let resources = Resources::new("/tmp");
    let builder = PresentationBuilder::new(&highlighter, &theme, &resources);
    let result = builder.build(elements);
    assert!(matches!(result, Err(BuildError::InvalidTheme(_))));
}

#[test]
fn missing_image_fails_the_build() {
    let elements = vec![MarkdownElement::Image("pic.png".to_string())];
    let highlighter = CodeHighlighter::new("base16-ocean.dark").unwrap();
    let theme = PresentationTheme::default();
    let resources = Resources::new("/tmp");
    let builder = PresentationBuilder::new(&highlighter, &theme, &resources);
    let result = builder.build(elements);
    assert!(matches!(result, Err(BuildError::LoadImage(_))));
}

#[test]
fn registered_image_is_emitted() {
    let elements = vec![MarkdownElement::Image("pic.png".to_string())];
    let highlighter = CodeHighlighter::new("base16-ocean.dark").unwrap();
    let theme = PresentationTheme::default();
    let mut resources = Resources::new("/tmp");
    resources.register_image("pic.png".to_string());
    let builder = PresentationBuilder::new(&highlighter, &theme, &resources);
    let presentation = builder.build(elements).expect("build failed");
    let images = presentation.slides[0]
        .render_operations
        .iter()
        .filter(|op| matches!(op, RenderOperation::RenderImage(_)))
        .count();
    assert_eq!(images, 1);
}

#[test]
fn pause_directives_grow_physical_slides_as_prefixes() {
    let elements = vec![
        MarkdownElement::Heading { text: Text::plain("one".to_string()), level: 1 },
        MarkdownElement::Comment("pause".to_string()),
        MarkdownElement::Heading { text: Text::plain("two".to_string()), level: 1 },
        MarkdownElement::Comment("pause".to_string()),
        MarkdownElement::Heading { text: Text::plain("three".to_string()), level: 1 },
    ];
    let presentation = build_presentation(elements);
    assert_eq!(presentation.slides.len(), 3);
    let shapes: Vec<Vec<String>> = presentation
        .slides
        .iter()
        .map(|slide| {
            let mut sig: Vec<String> =
                slide.render_operations.iter().map(op_shape).collect();
            sig.pop(); // drop the footer, which differs per physical slide
            sig
        })
        .collect();
    assert!(shapes[0].len() < shapes[1].len());
    assert!(shapes[1].len() < shapes[2].len());
    assert_eq!(&shapes[1][..shapes[0].len()], &shapes[0][..]);
    assert_eq!(&shapes[2][..shapes[1].len()], &shapes[1][..]);
    // the last physical slide holds the pause-free content
    let no_pauses = build_presentation(vec![
        MarkdownElement::Heading { text: Text::plain("one".to_string()), level: 1 },
        MarkdownElement::Heading { text: Text::plain("two".to_string()), level: 1 },
        MarkdownElement::Heading { text: Text::plain("three".to_string()), level: 1 },
    ]);
    let mut full: Vec<String> =
        no_pauses.slides[0].render_operations.iter().map(op_shape).collect();
    full.pop();
    assert_eq!(shapes[2], full);
}

#[test]
fn footer_template_substitutes_slide_numbers_and_author() {
    let elements = vec![
        MarkdownElement::Heading { text: Text::plain("hello".to_string()), level: 1 },
        MarkdownElement::Comment("end_slide".to_string()),
        MarkdownElement::Heading { text: Text::plain("bye".to_string()), level: 1 },
    ];
    let presentation = build_presentation(elements);
    assert_eq!(presentation.slides.len(), 2);
    assert_eq!(presentation.footer_context.total_slides, 2);
    assert_eq!(presentation.footer_context.author, "");
    let dimensions = WindowSize { rows: 24, columns: 80, width: 0, height: 0 };
    for (index, slide) in presentation.slides.iter().enumerate() {
        let generator = match slide.render_operations.last() {
            Some(RenderOperation::RenderDynamic(g)) => g,
            other => panic!("slide {index} does not end in a footer: {other:?}"),
        };
        assert_eq!(generator.current_slide, index);
        let ops = generator.as_render_operations(&presentation.footer_context, &dimensions);
        assert_eq!(ops.len(), 2);
        assert!(matches!(ops[0], RenderOperation::JumpToWindowBottom));
        let text = line_text(&ops[1]).unwrap();
        assert_eq!(text, format!("{} / 2", index + 1));
    }
}

#[test]
fn progress_bar_footer_length_follows_the_ratio() {
    let generator = FooterGenerator {
        current_slide: 0,
        style: FooterStyle::ProgressBar {
            character: None,
            colors: Colors { foreground: None, background: None },
        },
    };
    let context = FooterContext { total_slides: 2, author: String::new() };
    let dimensions = WindowSize { rows: 24, columns: 10, width: 0, height: 0 };
    let ops = generator.as_render_operations(&context, &dimensions);
    let bar = line_text(&ops[1]).unwrap();
    assert_eq!(bar, "\u{2588}".repeat(5));
}

#[test]
fn theme_merge_prefers_present_override_leaves() {
    let base = PresentationTheme::default();
    let mut over = PresentationTheme::default();
    over.footer = None;
    over.code.padding_horizontal = Some(2);
    over.block_quote.prefix = Some("> ".to_string());
    over.default_style.colors = Colors { foreground: Some(Color::Red), background: None };
    let merged = base.merge(&over);
    assert_eq!(merged.code.padding_horizontal, Some(2));
    assert_eq!(merged.block_quote.prefix.as_deref(), Some("> "));
    assert!(matches!(merged.default_style.colors.foreground, Some(Color::Red)));
    // the override left the footer absent, so the base footer survives
    assert!(matches!(merged.footer, Some(FooterStyle::Template { .. })));
}

#[test]
fn parse_color_reads_names_and_hex() {
    assert!(matches!(parse_color("red"), Some(Color::Red)));
    assert!(matches!(parse_color("ff00aa"), Some(Color::Rgb { r: 255, g: 0, b: 170 })));
    assert_eq!(parse_color("not-a-color").is_none(), true);
}

#[test]
fn navigation_stays_in_bounds() {
    let elements = vec![
        MarkdownElement::Heading { text: Text::plain("a".to_string()), level: 1 },
        MarkdownElement::Comment("end_slide".to_string()),
        MarkdownElement::Heading { text: Text::plain("b".to_string()), level: 1 },
    ];
    let mut presentation = build_presentation(elements);
    assert_eq!(presentation.current_slide_index(), 0);
    presentation.jump_previous_slide();
    assert_eq!(presentation.current_slide_index(), 0);
    presentation.jump_next_slide();
    assert_eq!(presentation.current_slide_index(), 1);
    presentation.jump_next_slide();
    assert_eq!(presentation.current_slide_index(), 1);
    assert_eq!(presentation.total_slides(), 2);
}

#[test]
fn front_matter_author_reaches_the_footer() {
    let elements = vec![
        MarkdownElement::FrontMatter("author: bob".to_string()),
        MarkdownElement::Heading { text: Text::plain("hello".to_string()), level: 1 },
    ];
    let presentation = build_presentation(elements);
    assert_eq!(presentation.footer_context.author, "bob");
    let dimensions = WindowSize { rows: 24, columns: 80, width: 0, height: 0 };
    let generator = match presentation.slides[0].render_operations.last() {
        Some(RenderOperation::RenderDynamic(g)) => g,
        _ => panic!("no footer"),
    };
    let ops = generator.as_render_operations(&presentation.footer_context, &dimensions);
    assert!(line_text(&ops[1]).is_some());
}

#[test]
fn list_items_carry_depth_markers_and_numbers() {
    let elements = vec![MarkdownElement::List(vec![
        ListItem {
            depth: 0,
            contents: Text::plain("first".to_string()),
            item_type: ListItemType::Unordered,
        },
        ListItem {
            depth: 1,
            contents: Text::plain("second".to_string()),
            item_type: ListItemType::OrderedParens(12),
        },
    ])];
    let presentation = build_presentation(elements);
    let lines: Vec<String> = presentation.slides[0]
        .render_operations
        .iter()
        .filter_map(line_text)
        .collect();
    assert_eq!(lines[0], "  \u{2022} first");
    assert_eq!(lines[1], "    12)  second");
}

#[test]
fn code_padding_shifts_lines_and_widens_the_block() {
    let mut theme = PresentationTheme::default();
    theme.code.padding_horizontal = Some(2);
    theme.code.padding_vertical = Some(1);
    let highlighter = CodeHighlighter::new("base16-ocean.dark").unwrap();
    let resources = Resources::new("/tmp");
    let builder = PresentationBuilder::new(&highlighter, &theme, &resources);
    let elements = vec![MarkdownElement::Code(Code {
        contents: "ab".to_string(),
        language: ProgrammingLanguage::Rust,
    })];
    let presentation = builder.build(elements).expect("build failed");
    let pre: Vec<(String, usize, usize)> = presentation.slides[0]
        .render_operations
        .iter()
        .filter_map(|op| match op {
            RenderOperation::RenderPreformattedLine { text, unformatted_length, block_length, .. } => {
                Some((text.clone(), *unformatted_length, *block_length))
            }
            _ => None,
        })
        .collect();
    // a blank line above and below, and the content line indented by two
    assert_eq!(pre.len(), 3);
    assert_eq!(pre[1].0, "  ab");
    assert_eq!(pre[1].1, 4);
    // block width: widest padded line (4) plus the horizontal padding (2)
    assert_eq!(pre[1].2, 6);
}

#[test]
fn starting_column_follows_the_alignment_rules() {
    assert_eq!(starting_column(&Alignment::Left { margin: 3 }, 10, 80), 3);
    assert_eq!(starting_column(&Alignment::Right { margin: 2 }, 10, 80), 68);
    assert_eq!(
        starting_column(&Alignment::Center { minimum_size: 0, minimum_margin: 0 }, 10, 80),
        35
    );
    // too narrow for the minimum size plus both margins: left fallback
    assert_eq!(
        starting_column(&Alignment::Center { minimum_size: 70, minimum_margin: 10 }, 10, 80),
        10
    );
}

#[test]
fn error_display_is_fixed_and_theme_independent() {
    let ops = error_operations("boom");
    assert_eq!(ops.len(), 7);
    assert!(matches!(ops[0], RenderOperation::ClearScreen));
    assert!(matches!(
        ops[1],
        RenderOperation::SetColors(Colors { foreground: Some(Color::Red), background: Some(Color::Black) })
    ));
    assert!(matches!(ops[2], RenderOperation::JumpToVerticalCenter));
    assert_eq!(line_text(&ops[3]).unwrap(), "Error loading presentation: ");
    assert!(matches!(ops[4], RenderOperation::RenderLineBreak));
    assert!(matches!(ops[5], RenderOperation::RenderLineBreak));
    assert_eq!(line_text(&ops[6]).unwrap(), "boom");
}
