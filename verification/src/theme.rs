//! Presentation themes.
//!
//! A theme is a bag of optional styling choices; absent leaves fall back to
//! built-in defaults at the point of use. Because every leaf is optional,
//! the same shape serves both as a full theme and as a set of overrides, and
//! merging is a pure field-wise operation: a present override leaf replaces
//! the base leaf, an absent one falls through.

use vstd::prelude::*;
use vstd::string::*;
use crate::strutil::str_eq;
use crate::style::Colors;

verus! {

/// Horizontal placement of a rendered line.
#[derive(Clone, Copy, Debug)]
pub enum Alignment {
    Left { margin: usize },
    Right { margin: usize },
    Center { minimum_size: usize, minimum_margin: usize },
}

/// Where the author line of the intro slide goes.
#[derive(Clone, Copy, Debug)]
pub enum AuthorPositioning {
    BelowTitle,
    PageBottom,
}

/// The kind of element a line belongs to, used to pick its alignment.
#[derive(Clone, Copy, Debug)]
pub enum ElementType {
    PresentationTitle,
    PresentationSubTitle,
    PresentationAuthor,
    SlideTitle,
    Heading1,
    Heading2,
    Heading3,
    Heading4,
    Heading5,
    Heading6,
    Paragraph,
    List,
    Code,
    Table,
    BlockQuote,
}

/// Colors plus an optional alignment.
#[derive(Clone, Copy, Debug)]
pub struct BasicStyle {
    pub colors: Colors,
    pub alignment: Option<Alignment>,
}

/// Styling of the synthesized intro slide.
#[derive(Clone, Copy, Debug)]
pub struct IntroSlideStyle {
    pub title: BasicStyle,
    pub subtitle: BasicStyle,
    pub author: BasicStyle,
    pub positioning: Option<AuthorPositioning>,
}

/// Styling of a slide title.
#[derive(Clone, Copy, Debug)]
pub struct SlideTitleStyle {
    pub colors: Colors,
    pub padding_top: Option<u8>,
    pub padding_bottom: Option<u8>,
    pub separator: Option<bool>,
    pub alignment: Option<Alignment>,
}

/// Styling of one heading level.
#[derive(Debug)]
pub struct HeadingStyle {
    pub colors: Colors,
    pub prefix: Option<String>,
    pub alignment: Option<Alignment>,
}

/// Styling of the six heading levels.
#[derive(Debug)]
pub struct HeadingStyles {
    pub h1: HeadingStyle,
    pub h2: HeadingStyle,
    pub h3: HeadingStyle,
    pub h4: HeadingStyle,
    pub h5: HeadingStyle,
    pub h6: HeadingStyle,
}

/// Styling of code blocks.
#[derive(Clone, Copy, Debug)]
pub struct CodeStyle {
    pub colors: Colors,
    pub padding_horizontal: Option<u8>,
    pub padding_vertical: Option<u8>,
    pub alignment: Option<Alignment>,
}

/// Styling of block quotes.
#[derive(Debug)]
pub struct BlockQuoteStyle {
    pub colors: Colors,
    pub prefix: Option<String>,
    pub alignment: Option<Alignment>,
}

/// How the footer of every slide is rendered.
#[derive(Debug)]
pub enum FooterStyle {
    Template { left: Option<String>, right: Option<String>, colors: Colors },
    ProgressBar { character: Option<char>, colors: Colors },
    Empty,
}

/// A full presentation theme.
#[derive(Debug)]
pub struct PresentationTheme {
    pub default_style: BasicStyle,
    pub intro_slide: IntroSlideStyle,
    pub slide_title: SlideTitleStyle,
    pub headings: HeadingStyles,
    pub code: CodeStyle,
    pub block_quote: BlockQuoteStyle,
    pub footer: Option<FooterStyle>,
}

/// The mathematical value of an optional string.
pub open spec fn opt_str_abs(o: Option<String>) -> Option<Seq<char>> {
    match o {
        Some(s) => Some(s@),
        None => None,
    }
}

/// Heading style with its prefix as a character sequence.
#[verifier::ext_equal]
pub struct HeadingStyleA {
    pub colors: Colors,
    pub prefix: Option<Seq<char>>,
    pub alignment: Option<Alignment>,
}

/// The six heading styles, abstracted.
#[verifier::ext_equal]
pub struct HeadingStylesA {
    pub h1: HeadingStyleA,
    pub h2: HeadingStyleA,
    pub h3: HeadingStyleA,
    pub h4: HeadingStyleA,
    pub h5: HeadingStyleA,
    pub h6: HeadingStyleA,
}

/// Block-quote style, abstracted.
#[verifier::ext_equal]
pub struct BlockQuoteStyleA {
    pub colors: Colors,
    pub prefix: Option<Seq<char>>,
    pub alignment: Option<Alignment>,
}

/// Footer style, abstracted.
#[verifier::ext_equal]
pub enum FooterStyleA {
    TemplateA { left: Option<Seq<char>>, right: Option<Seq<char>>, colors: Colors },
    ProgressBarA { character: Option<char>, colors: Colors },
    EmptyA,
}

/// The mathematical value of a whole theme.
#[verifier::ext_equal]
pub struct ThemeA {
    pub default_style: BasicStyle,
    pub intro_slide: IntroSlideStyle,
    pub slide_title: SlideTitleStyle,
    pub headings: HeadingStylesA,
    pub code: CodeStyle,
    pub block_quote: BlockQuoteStyleA,
    pub footer: Option<FooterStyleA>,
}

impl View for HeadingStyle {
    type V = HeadingStyleA;

    open spec fn view(&self) -> HeadingStyleA {
        HeadingStyleA {
            colors: self.colors,
            prefix: opt_str_abs(self.prefix),
            alignment: self.alignment,
        }
    }
}

impl View for HeadingStyles {
    type V = HeadingStylesA;

    open spec fn view(&self) -> HeadingStylesA {
        HeadingStylesA {
            h1: self.h1@,
            h2: self.h2@,
            h3: self.h3@,
            h4: self.h4@,
            h5: self.h5@,
            h6: self.h6@,
        }
    }
}

impl View for BlockQuoteStyle {
    type V = BlockQuoteStyleA;

    open spec fn view(&self) -> BlockQuoteStyleA {
        BlockQuoteStyleA {
            colors: self.colors,
            prefix: opt_str_abs(self.prefix),
            alignment: self.alignment,
        }
    }
}

impl View for FooterStyle {
    type V = FooterStyleA;

    open spec fn view(&self) -> FooterStyleA {
        match self {
            FooterStyle::Template { left, right, colors } => FooterStyleA::TemplateA {
                left: opt_str_abs(*left),
                right: opt_str_abs(*right),
                colors: *colors,
            },
            FooterStyle::ProgressBar { character, colors } => FooterStyleA::ProgressBarA {
                character: *character,
                colors: *colors,
            },
            FooterStyle::Empty => FooterStyleA::EmptyA,
        }
    }
}

/// The mathematical value of an optional footer style.
pub open spec fn opt_footer_abs(o: Option<FooterStyle>) -> Option<FooterStyleA> {
    match o {
        Some(f) => Some(f@),
        None => None,
    }
}

impl View for PresentationTheme {
    type V = ThemeA;

    open spec fn view(&self) -> ThemeA {
        ThemeA {
            default_style: self.default_style,
            intro_slide: self.intro_slide,
            slide_title: self.slide_title,
            headings: self.headings@,
            code: self.code,
            block_quote: self.block_quote@,
            footer: opt_footer_abs(self.footer),
        }
    }
}

fn clone_opt_string(o: &Option<String>) -> (r: Option<String>)
    ensures
        opt_str_abs(r) == opt_str_abs(*o),
{
    match o {
        Some(s) => Some(s.clone()),
        None => None,
    }
}

impl Clone for HeadingStyle {
    fn clone(&self) -> (r: Self)
        ensures
            r@ == self@,
    {
        HeadingStyle {
            colors: self.colors,
            prefix: clone_opt_string(&self.prefix),
            alignment: self.alignment,
        }
    }
}

impl Clone for HeadingStyles {
    fn clone(&self) -> (r: Self)
        ensures
            r@ == self@,
    {
        HeadingStyles {
            h1: self.h1.clone(),
            h2: self.h2.clone(),
            h3: self.h3.clone(),
            h4: self.h4.clone(),
            h5: self.h5.clone(),
            h6: self.h6.clone(),
        }
    }
}

impl Clone for BlockQuoteStyle {
    fn clone(&self) -> (r: Self)
        ensures
            r@ == self@,
    {
        BlockQuoteStyle {
            colors: self.colors,
            prefix: clone_opt_string(&self.prefix),
            alignment: self.alignment,
        }
    }
}

impl Clone for FooterStyle {
    fn clone(&self) -> (r: Self)
        ensures
            r@ == self@,
    {
        match self {
            FooterStyle::Template { left, right, colors } => FooterStyle::Template {
                left: clone_opt_string(left),
                right: clone_opt_string(right),
                colors: *colors,
            },
            FooterStyle::ProgressBar { character, colors } => FooterStyle::ProgressBar {
                character: *character,
                colors: *colors,
            },
            FooterStyle::Empty => FooterStyle::Empty,
        }
    }
}

fn clone_opt_footer(o: &Option<FooterStyle>) -> (r: Option<FooterStyle>)
    ensures
        opt_footer_abs(r) == opt_footer_abs(*o),
{
    match o {
        Some(f) => Some(f.clone()),
        None => None,
    }
}

impl Clone for PresentationTheme {
    fn clone(&self) -> (r: Self)
        ensures
            r@ == self@,
    {
        PresentationTheme {
            default_style: self.default_style,
            intro_slide: self.intro_slide,
            slide_title: self.slide_title,
            headings: self.headings.clone(),
            code: self.code,
            block_quote: self.block_quote.clone(),
            footer: clone_opt_footer(&self.footer),
        }
    }
}

/// An absent override leaf keeps the base; a present one replaces it.
pub open spec fn merged_opt<T>(base: Option<T>, over: Option<T>) -> Option<T> {
    if over is Some {
        over
    } else {
        base
    }
}

/// Colors merged channel by channel.
pub open spec fn merged_colors(base: Colors, over: Colors) -> Colors {
    Colors {
        foreground: merged_opt(base.foreground, over.foreground),
        background: merged_opt(base.background, over.background),
    }
}

/// A basic style merged leaf by leaf.
pub open spec fn merged_basic(base: BasicStyle, over: BasicStyle) -> BasicStyle {
    BasicStyle {
        colors: merged_colors(base.colors, over.colors),
        alignment: merged_opt(base.alignment, over.alignment),
    }
}

/// A heading style merged leaf by leaf.
pub open spec fn merged_heading(base: HeadingStyleA, over: HeadingStyleA) -> HeadingStyleA {
    HeadingStyleA {
        colors: merged_colors(base.colors, over.colors),
        prefix: merged_opt(base.prefix, over.prefix),
        alignment: merged_opt(base.alignment, over.alignment),
    }
}

/// A whole theme merged leaf by leaf: present override leaves replace base
/// leaves, absent ones fall through. The footer is replaced as a unit.
pub open spec fn merged_theme(base: ThemeA, over: ThemeA) -> ThemeA {
    ThemeA {
        default_style: merged_basic(base.default_style, over.default_style),
        intro_slide: IntroSlideStyle {
            title: merged_basic(base.intro_slide.title, over.intro_slide.title),
            subtitle: merged_basic(base.intro_slide.subtitle, over.intro_slide.subtitle),
            author: merged_basic(base.intro_slide.author, over.intro_slide.author),
            positioning: merged_opt(base.intro_slide.positioning, over.intro_slide.positioning),
        },
        slide_title: SlideTitleStyle {
            colors: merged_colors(base.slide_title.colors, over.slide_title.colors),
            padding_top: merged_opt(base.slide_title.padding_top, over.slide_title.padding_top),
            padding_bottom: merged_opt(
                base.slide_title.padding_bottom,
                over.slide_title.padding_bottom,
            ),
            separator: merged_opt(base.slide_title.separator, over.slide_title.separator),
            alignment: merged_opt(base.slide_title.alignment, over.slide_title.alignment),
        },
        headings: HeadingStylesA {
            h1: merged_heading(base.headings.h1, over.headings.h1),
            h2: merged_heading(base.headings.h2, over.headings.h2),
            h3: merged_heading(base.headings.h3, over.headings.h3),
            h4: merged_heading(base.headings.h4, over.headings.h4),
            h5: merged_heading(base.headings.h5, over.headings.h5),
            h6: merged_heading(base.headings.h6, over.headings.h6),
        },
        code: CodeStyle {
            colors: merged_colors(base.code.colors, over.code.colors),
            padding_horizontal: merged_opt(
                base.code.padding_horizontal,
                over.code.padding_horizontal,
            ),
            padding_vertical: merged_opt(base.code.padding_vertical, over.code.padding_vertical),
            alignment: merged_opt(base.code.alignment, over.code.alignment),
        },
        block_quote: BlockQuoteStyleA {
            colors: merged_colors(base.block_quote.colors, over.block_quote.colors),
            prefix: merged_opt(base.block_quote.prefix, over.block_quote.prefix),
            alignment: merged_opt(base.block_quote.alignment, over.block_quote.alignment),
        },
        footer: merged_opt(base.footer, over.footer),
    }
}

fn merge_opt_u8(base: Option<u8>, over: Option<u8>) -> (r: Option<u8>)
    ensures
        r == merged_opt(base, over),
{
    match over {
        Some(v) => Some(v),
        None => base,
    }
}

fn merge_opt_bool(base: Option<bool>, over: Option<bool>) -> (r: Option<bool>)
    ensures
        r == merged_opt(base, over),
{
    match over {
        Some(v) => Some(v),
        None => base,
    }
}

fn merge_opt_alignment(base: Option<Alignment>, over: Option<Alignment>) -> (r: Option<Alignment>)
    ensures
        r == merged_opt(base, over),
{
    match over {
        Some(v) => Some(v),
        None => base,
    }
}

fn merge_opt_positioning(base: Option<AuthorPositioning>, over: Option<AuthorPositioning>) -> (r:
    Option<AuthorPositioning>)
    ensures
        r == merged_opt(base, over),
{
    match over {
        Some(v) => Some(v),
        None => base,
    }
}

fn merge_opt_string(base: &Option<String>, over: &Option<String>) -> (r: Option<String>)
    ensures
        opt_str_abs(r) == merged_opt(opt_str_abs(*base), opt_str_abs(*over)),
{
    match over {
        Some(v) => Some(v.clone()),
        None => clone_opt_string(base),
    }
}

fn merge_colors(base: Colors, over: Colors) -> (r: Colors)
    ensures
        r == merged_colors(base, over),
{
    Colors {
        foreground: match over.foreground {
            Some(c) => Some(c),
            None => base.foreground,
        },
        background: match over.background {
            Some(c) => Some(c),
            None => base.background,
        },
    }
}

fn merge_basic(base: BasicStyle, over: BasicStyle) -> (r: BasicStyle)
    ensures
        r == merged_basic(base, over),
{
    BasicStyle {
        colors: merge_colors(base.colors, over.colors),
        alignment: merge_opt_alignment(base.alignment, over.alignment),
    }
}

fn merge_heading(base: &HeadingStyle, over: &HeadingStyle) -> (r: HeadingStyle)
    ensures
        r@ == merged_heading(base@, over@),
{
    HeadingStyle {
        colors: merge_colors(base.colors, over.colors),
        prefix: merge_opt_string(&base.prefix, &over.prefix),
        alignment: merge_opt_alignment(base.alignment, over.alignment),
    }
}

impl PresentationTheme {
    /// `self` with the present leaves of `over` applied on top.
    pub fn merge(&self, over: &PresentationTheme) -> (r: PresentationTheme)
        ensures
            r@ == merged_theme(self@, over@),
    {
        PresentationTheme {
            default_style: merge_basic(self.default_style, over.default_style),
            intro_slide: IntroSlideStyle {
                title: merge_basic(self.intro_slide.title, over.intro_slide.title),
                subtitle: merge_basic(self.intro_slide.subtitle, over.intro_slide.subtitle),
                author: merge_basic(self.intro_slide.author, over.intro_slide.author),
                positioning: merge_opt_positioning(
                    self.intro_slide.positioning,
                    over.intro_slide.positioning,
                ),
            },
            slide_title: SlideTitleStyle {
                colors: merge_colors(self.slide_title.colors, over.slide_title.colors),
                padding_top: merge_opt_u8(
                    self.slide_title.padding_top,
                    over.slide_title.padding_top,
                ),
                padding_bottom: merge_opt_u8(
                    self.slide_title.padding_bottom,
                    over.slide_title.padding_bottom,
                ),
                separator: merge_opt_bool(self.slide_title.separator, over.slide_title.separator),
                alignment: merge_opt_alignment(
                    self.slide_title.alignment,
                    over.slide_title.alignment,
                ),
            },
            headings: HeadingStyles {
                h1: merge_heading(&self.headings.h1, &over.headings.h1),
                h2: merge_heading(&self.headings.h2, &over.headings.h2),
                h3: merge_heading(&self.headings.h3, &over.headings.h3),
                h4: merge_heading(&self.headings.h4, &over.headings.h4),
                h5: merge_heading(&self.headings.h5, &over.headings.h5),
                h6: merge_heading(&self.headings.h6, &over.headings.h6),
            },
            code: CodeStyle {
                colors: merge_colors(self.code.colors, over.code.colors),
                padding_horizontal: merge_opt_u8(
                    self.code.padding_horizontal,
                    over.code.padding_horizontal,
                ),
                padding_vertical: merge_opt_u8(
                    self.code.padding_vertical,
                    over.code.padding_vertical,
                ),
                alignment: merge_opt_alignment(self.code.alignment, over.code.alignment),
            },
            block_quote: BlockQuoteStyle {
                colors: merge_colors(self.block_quote.colors, over.block_quote.colors),
                prefix: merge_opt_string(&self.block_quote.prefix, &over.block_quote.prefix),
                alignment: merge_opt_alignment(
                    self.block_quote.alignment,
                    over.block_quote.alignment,
                ),
            },
            footer: match &over.footer {
                Some(f) => Some(f.clone()),
                None => clone_opt_footer(&self.footer),
            },
        }
    }

    /// The alignment used for lines of the given element kind, falling back
    /// to the defaults: intro-slide lines and slide titles center, all other
    /// content aligns left with no margin.
    pub open spec fn alignment_spec(t: ThemeA, element: ElementType) -> Alignment {
        let configured = match element {
            ElementType::PresentationTitle => t.intro_slide.title.alignment,
            ElementType::PresentationSubTitle => t.intro_slide.subtitle.alignment,
            ElementType::PresentationAuthor => t.intro_slide.author.alignment,
            ElementType::SlideTitle => t.slide_title.alignment,
            ElementType::Heading1 => t.headings.h1.alignment,
            ElementType::Heading2 => t.headings.h2.alignment,
            ElementType::Heading3 => t.headings.h3.alignment,
            ElementType::Heading4 => t.headings.h4.alignment,
            ElementType::Heading5 => t.headings.h5.alignment,
            ElementType::Heading6 => t.headings.h6.alignment,
            ElementType::Paragraph => None,
            ElementType::List => None,
            ElementType::Code => t.code.alignment,
            ElementType::Table => None,
            ElementType::BlockQuote => t.block_quote.alignment,
        };
        match configured {
            Some(a) => a,
            None => match element {
                ElementType::PresentationTitle => Alignment::Center {
                    minimum_size: 0,
                    minimum_margin: 0,
                },
                ElementType::PresentationSubTitle => Alignment::Center {
                    minimum_size: 0,
                    minimum_margin: 0,
                },
                ElementType::PresentationAuthor => Alignment::Center {
                    minimum_size: 0,
                    minimum_margin: 0,
                },
                ElementType::SlideTitle => Alignment::Center { minimum_size: 0, minimum_margin: 0 },
                _ => Alignment::Left { margin: 0 },
            },
        }
    }

    /// The alignment used for lines of the given element kind.
    pub fn alignment(&self, element: ElementType) -> (r: Alignment)
        ensures
            r == PresentationTheme::alignment_spec(self@, element),
    {
        let configured = match element {
            ElementType::PresentationTitle => self.intro_slide.title.alignment,
            ElementType::PresentationSubTitle => self.intro_slide.subtitle.alignment,
            ElementType::PresentationAuthor => self.intro_slide.author.alignment,
            ElementType::SlideTitle => self.slide_title.alignment,
            ElementType::Heading1 => self.headings.h1.alignment,
            ElementType::Heading2 => self.headings.h2.alignment,
            ElementType::Heading3 => self.headings.h3.alignment,
            ElementType::Heading4 => self.headings.h4.alignment,
            ElementType::Heading5 => self.headings.h5.alignment,
            ElementType::Heading6 => self.headings.h6.alignment,
            ElementType::Paragraph => None,
            ElementType::List => None,
            ElementType::Code => self.code.alignment,
            ElementType::Table => None,
            ElementType::BlockQuote => self.block_quote.alignment,
        };
        match configured {
            Some(a) => a,
            None => match element {
                ElementType::PresentationTitle => Alignment::Center {
                    minimum_size: 0,
                    minimum_margin: 0,
                },
                ElementType::PresentationSubTitle => Alignment::Center {
                    minimum_size: 0,
                    minimum_margin: 0,
                },
                ElementType::PresentationAuthor => Alignment::Center {
                    minimum_size: 0,
                    minimum_margin: 0,
                },
                ElementType::SlideTitle => Alignment::Center { minimum_size: 0, minimum_margin: 0 },
                _ => Alignment::Left { margin: 0 },
            },
        }
    }

    /// The mathematical value of the built-in default theme: no colors, no
    /// prefixes, and a left-side `{current_slide} / {total_slides}` footer.
    pub open spec fn default_theme_abs() -> ThemeA {
        let no_colors = Colors { foreground: None, background: None };
        let basic = BasicStyle { colors: no_colors, alignment: None };
        let heading = HeadingStyleA { colors: no_colors, prefix: None, alignment: None };
        ThemeA {
            default_style: basic,
            intro_slide: IntroSlideStyle {
                title: basic,
                subtitle: basic,
                author: basic,
                positioning: None,
            },
            slide_title: SlideTitleStyle {
                colors: no_colors,
                padding_top: None,
                padding_bottom: None,
                separator: None,
                alignment: None,
            },
            headings: HeadingStylesA {
                h1: heading,
                h2: heading,
                h3: heading,
                h4: heading,
                h5: heading,
                h6: heading,
            },
            code: CodeStyle {
                colors: no_colors,
                padding_horizontal: None,
                padding_vertical: None,
                alignment: None,
            },
            block_quote: BlockQuoteStyleA { colors: no_colors, prefix: None, alignment: None },
            footer: Some(
                FooterStyleA::TemplateA {
                    left: Some("{current_slide} / {total_slides}"@),
                    right: None,
                    colors: no_colors,
                },
            ),
        }
    }

    /// The built-in default theme.
    pub fn default_theme() -> (r: PresentationTheme)
        ensures
            r@ == PresentationTheme::default_theme_abs(),
    {
        let no_colors = Colors { foreground: None, background: None };
        let basic = BasicStyle { colors: no_colors, alignment: None };
        let r = PresentationTheme {
            default_style: basic,
            intro_slide: IntroSlideStyle {
                title: basic,
                subtitle: basic,
                author: basic,
                positioning: None,
            },
            slide_title: SlideTitleStyle {
                colors: no_colors,
                padding_top: None,
                padding_bottom: None,
                separator: None,
                alignment: None,
            },
            headings: HeadingStyles {
                h1: HeadingStyle { colors: no_colors, prefix: None, alignment: None },
                h2: HeadingStyle { colors: no_colors, prefix: None, alignment: None },
                h3: HeadingStyle { colors: no_colors, prefix: None, alignment: None },
                h4: HeadingStyle { colors: no_colors, prefix: None, alignment: None },
                h5: HeadingStyle { colors: no_colors, prefix: None, alignment: None },
                h6: HeadingStyle { colors: no_colors, prefix: None, alignment: None },
            },
            code: CodeStyle {
                colors: no_colors,
                padding_horizontal: None,
                padding_vertical: None,
                alignment: None,
            },
            block_quote: BlockQuoteStyle { colors: no_colors, prefix: None, alignment: None },
            footer: Some(
                FooterStyle::Template {
                    left: Some(String::from_str("{current_slide} / {total_slides}")),
                    right: None,
                    colors: no_colors,
                },
            ),
        };
        r
    }

    /// The mathematical value of the built-in light theme: the default theme
    /// with black-on-white default colors.
    pub open spec fn light_theme_abs() -> ThemeA {
        ThemeA {
            default_style: BasicStyle {
                colors: Colors {
                    foreground: Some(crate::style::Color::Black),
                    background: Some(crate::style::Color::White),
                },
                alignment: None,
            },
            ..PresentationTheme::default_theme_abs()
        }
    }

    /// Look a built-in theme up by name. `"dark"` and `"light"` exist; the
    /// light theme differs only in its default colors.
    pub fn from_name(name: &str) -> (r: Option<PresentationTheme>)
        ensures
            (name@ == "dark"@ || name@ == "light"@) <==> r is Some,
            name@ == "dark"@ ==> (r matches Some(t) && t@ == PresentationTheme::default_theme_abs()),
            name@ == "light"@ && name@ != "dark"@ ==> (r matches Some(t) && t@
                == PresentationTheme::light_theme_abs()),
    {
        if str_eq(name, "dark") {
            Some(PresentationTheme::default_theme())
        } else if str_eq(name, "light") {
            let mut theme = PresentationTheme::default_theme();
            theme.default_style.colors = Colors {
                foreground: Some(crate::style::Color::Black),
                background: Some(crate::style::Color::White),
            };
            Some(theme)
        } else {
            None
        }
    }
}

impl Default for PresentationTheme {
    /// The default theme, as [`PresentationTheme::default_theme`] builds it.
    fn default() -> (r: Self)
        ensures
            r@ == PresentationTheme::default_theme_abs(),
    {
        PresentationTheme::default_theme()
    }
}

} // verus!
