//! Front-matter configuration.
//!
//! The front matter is a YAML document; parsing it is delegated to the
//! `serde_yaml` crate behind trusted declarations. The parsed value is
//! opaque, so everything stated about the build's behaviour is phrased over
//! the extracted [`PresentationMetadata`] value, which the rest of the
//! builder consumes through exact contracts.

use vstd::prelude::*;
use crate::strutil::str_eq;
use crate::style::{Color, Colors};
use crate::theme::{FooterStyle, PresentationTheme, BasicStyle, BlockQuoteStyle, CodeStyle, HeadingStyle, HeadingStyles, IntroSlideStyle, SlideTitleStyle};

verus! {

#[verifier::external_type_specification]
#[verifier::external_body]
pub struct ExYamlValue(serde_yaml::Value);

#[verifier::external_type_specification]
#[verifier::external_body]
pub struct ExYamlError(serde_yaml::Error);

/// The document `serde_yaml::from_str::<Value>` parses a text into, or
/// nothing when the text is malformed: a function of the text alone.
pub uninterp spec fn yaml_doc_of(s: Seq<char>) -> Option<serde_yaml::Value>;

/// The value `serde_yaml::Value::get` finds under a string key: a function
/// of the value and the key alone.
pub uninterp spec fn yaml_get_of(v: serde_yaml::Value, key: Seq<char>) -> Option<
    serde_yaml::Value,
>;

/// The characters `serde_yaml::Value::as_str` exposes, or nothing when the
/// value is not a YAML string.
pub uninterp spec fn yaml_str_of(v: serde_yaml::Value) -> Option<Seq<char>>;

/// The integer `serde_yaml::Value::as_u64` exposes, or nothing when the
/// value is not an unsigned integer in range.
pub uninterp spec fn yaml_u64_of(v: serde_yaml::Value) -> Option<u64>;

/// The boolean `serde_yaml::Value::as_bool` exposes, or nothing when the
/// value is not a YAML boolean.
pub uninterp spec fn yaml_bool_of(v: serde_yaml::Value) -> Option<bool>;

/// Relies on `serde_yaml::from_str` with `serde_yaml::Value` as the target:
/// parses a YAML document, or reports why it is malformed. The outcome and
/// the document depend on the text alone.
#[verifier::external_body]
fn yaml_parse(s: &str) -> (r: Result<serde_yaml::Value, serde_yaml::Error>)
    ensures
        r is Ok <==> yaml_doc_of(s@) is Some,
        r matches Ok(v) ==> yaml_doc_of(s@) == Some(v),
{
    serde_yaml::from_str(s)
}

/// Relies on the `Display` impl of `serde_yaml::Error`: a human-readable
/// description of the parse failure.
#[verifier::external_body]
fn yaml_error_message(e: &serde_yaml::Error) -> String {
    e.to_string()
}

/// Relies on `serde_yaml::Value::get`: the value under `key` when `self` is
/// a mapping that has it, a function of the value and the key alone.
#[verifier::external_body]
fn yaml_get<'a>(v: &'a serde_yaml::Value, key: &str) -> (r: Option<&'a serde_yaml::Value>)
    ensures
        r is Some <==> yaml_get_of(*v, key@) is Some,
        r matches Some(x) ==> yaml_get_of(*v, key@) == Some(*x),
{
    v.get(key)
}

/// Relies on `serde_yaml::Value::as_str`: the string when the value is a
/// YAML string, a function of the value alone.
#[verifier::external_body]
fn yaml_as_str(v: &serde_yaml::Value) -> (r: Option<String>)
    ensures
        r is Some <==> yaml_str_of(*v) is Some,
        r matches Some(s) ==> yaml_str_of(*v) == Some(s@),
{
    v.as_str().map(|s| s.to_string())
}

/// Relies on `serde_yaml::Value::as_u64`: the integer when the value is a
/// non-negative YAML integer in range, a function of the value alone.
#[verifier::external_body]
fn yaml_as_u64(v: &serde_yaml::Value) -> (r: Option<u64>)
    ensures
        r == yaml_u64_of(*v),
{
    v.as_u64()
}

/// Relies on `serde_yaml::Value::as_bool`: the boolean when the value is a
/// YAML boolean, a function of the value alone.
#[verifier::external_body]
fn yaml_as_bool(v: &serde_yaml::Value) -> (r: Option<bool>)
    ensures
        r == yaml_bool_of(*v),
{
    v.as_bool()
}

/// The theme selection carried by the front matter.
#[derive(Debug)]
pub struct PresentationThemeMetadata {
    pub theme_name: Option<String>,
    pub theme_path: Option<String>,
    pub overrides: Option<PresentationTheme>,
}

/// The configuration recognized in the front matter.
#[derive(Debug)]
pub struct PresentationMetadata {
    pub title: Option<String>,
    pub sub_title: Option<String>,
    pub author: Option<String>,
    pub theme: PresentationThemeMetadata,
}

impl PresentationMetadata {
    /// Whether this metadata asks for a dedicated intro slide.
    pub open spec fn has_intro(&self) -> bool {
        self.title is Some || self.sub_title is Some || self.author is Some
    }
}

/// The mathematical value of the theme selection.
#[verifier::ext_equal]
pub struct ThemeMetaA {
    pub name: Option<Seq<char>>,
    pub path: Option<Seq<char>>,
    pub overrides: Option<crate::theme::ThemeA>,
}

/// The mathematical value of the front-matter configuration.
#[verifier::ext_equal]
pub struct MetaA {
    pub title: Option<Seq<char>>,
    pub sub_title: Option<Seq<char>>,
    pub author: Option<Seq<char>>,
    pub theme: ThemeMetaA,
}

impl MetaA {
    /// Whether this configuration asks for a dedicated intro slide.
    pub open spec fn wants_intro(self) -> bool {
        self.title is Some || self.sub_title is Some || self.author is Some
    }
}

impl View for PresentationThemeMetadata {
    type V = ThemeMetaA;

    open spec fn view(&self) -> ThemeMetaA {
        ThemeMetaA {
            name: crate::theme::opt_str_abs(self.theme_name),
            path: crate::theme::opt_str_abs(self.theme_path),
            overrides: match self.overrides {
                Some(t) => Some(t@),
                None => None,
            },
        }
    }
}

impl View for PresentationMetadata {
    type V = MetaA;

    open spec fn view(&self) -> MetaA {
        MetaA {
            title: crate::theme::opt_str_abs(self.title),
            sub_title: crate::theme::opt_str_abs(self.sub_title),
            author: crate::theme::opt_str_abs(self.author),
            theme: self.theme@,
        }
    }
}

/// Colors that set neither channel.
pub open spec fn no_colors_spec() -> Colors {
    Colors { foreground: None, background: None }
}

/// The string the document holds under `key`.
pub open spec fn doc_string(v: serde_yaml::Value, key: Seq<char>) -> Option<Seq<char>> {
    match yaml_get_of(v, key) {
        Some(x) => yaml_str_of(x),
        None => None,
    }
}

/// The small integer the document holds under `key`; values above 255 are
/// ignored like absent ones.
pub open spec fn doc_u8(v: serde_yaml::Value, key: Seq<char>) -> Option<u8> {
    match yaml_get_of(v, key) {
        Some(x) => match yaml_u64_of(x) {
            Some(n) => if n <= 255 {
                Some(n as u8)
            } else {
                None
            },
            None => None,
        },
        None => None,
    }
}

/// The boolean the document holds under `key`.
pub open spec fn doc_bool(v: serde_yaml::Value, key: Seq<char>) -> Option<bool> {
    match yaml_get_of(v, key) {
        Some(x) => yaml_bool_of(x),
        None => None,
    }
}

/// The color the document names under `key`.
pub open spec fn doc_color(v: serde_yaml::Value, key: Seq<char>) -> Option<Color> {
    match doc_string(v, key) {
        Some(s) => parsed_color(s),
        None => None,
    }
}

/// The color pair a `colors` mapping configures.
pub open spec fn doc_colors(v: serde_yaml::Value) -> Colors {
    Colors { foreground: doc_color(v, "foreground"@), background: doc_color(v, "background"@) }
}

/// The color pair under `key`, or none.
pub open spec fn doc_colors_under(v: serde_yaml::Value, key: Seq<char>) -> Colors {
    match yaml_get_of(v, key) {
        Some(c) => doc_colors(c),
        None => no_colors_spec(),
    }
}

/// The heading-style overrides one `hN` mapping configures.
pub open spec fn doc_heading(o: Option<serde_yaml::Value>) -> crate::theme::HeadingStyleA {
    match o {
        Some(h) => crate::theme::HeadingStyleA {
            colors: doc_colors_under(h, "colors"@),
            prefix: doc_string(h, "prefix"@),
            alignment: None,
        },
        None => crate::theme::HeadingStyleA {
            colors: no_colors_spec(),
            prefix: None,
            alignment: None,
        },
    }
}

/// The first character of the configured progress-bar glyph.
pub open spec fn doc_progress_char(v: serde_yaml::Value) -> Option<char> {
    match doc_string(v, "character"@) {
        Some(s) => if s.len() > 0 {
            Some(s[0])
        } else {
            None
        },
        None => None,
    }
}

/// The footer style a `footer` mapping configures, picked by its `style`
/// key; an unrecognized style configures nothing.
pub open spec fn doc_footer(v: serde_yaml::Value) -> Option<crate::theme::FooterStyleA> {
    match doc_string(v, "style"@) {
        Some(s) => if s == "template"@ {
            Some(
                crate::theme::FooterStyleA::TemplateA {
                    left: doc_string(v, "left"@),
                    right: doc_string(v, "right"@),
                    colors: doc_colors_under(v, "colors"@),
                },
            )
        } else if s == "progress_bar"@ {
            Some(
                crate::theme::FooterStyleA::ProgressBarA {
                    character: doc_progress_char(v),
                    colors: doc_colors_under(v, "colors"@),
                },
            )
        } else if s == "empty"@ {
            Some(crate::theme::FooterStyleA::EmptyA)
        } else {
            None
        },
        None => None,
    }
}

/// The theme overrides an `override` mapping configures: the recognized
/// keys, everything else absent.
pub open spec fn doc_overrides(v: serde_yaml::Value) -> crate::theme::ThemeA {
    crate::theme::ThemeA {
        default_style: BasicStyle {
            colors: match yaml_get_of(v, "default"@) {
                Some(d) => doc_colors_under(d, "colors"@),
                None => no_colors_spec(),
            },
            alignment: None,
        },
        intro_slide: IntroSlideStyle {
            title: BasicStyle { colors: no_colors_spec(), alignment: None },
            subtitle: BasicStyle { colors: no_colors_spec(), alignment: None },
            author: BasicStyle { colors: no_colors_spec(), alignment: None },
            positioning: None,
        },
        slide_title: match yaml_get_of(v, "slide_title"@) {
            Some(st) => SlideTitleStyle {
                colors: doc_colors_under(st, "colors"@),
                padding_top: doc_u8(st, "padding_top"@),
                padding_bottom: doc_u8(st, "padding_bottom"@),
                separator: doc_bool(st, "separator"@),
                alignment: None,
            },
            None => SlideTitleStyle {
                colors: no_colors_spec(),
                padding_top: None,
                padding_bottom: None,
                separator: None,
                alignment: None,
            },
        },
        headings: match yaml_get_of(v, "headings"@) {
            Some(h) => crate::theme::HeadingStylesA {
                h1: doc_heading(yaml_get_of(h, "h1"@)),
                h2: doc_heading(yaml_get_of(h, "h2"@)),
                h3: doc_heading(yaml_get_of(h, "h3"@)),
                h4: doc_heading(yaml_get_of(h, "h4"@)),
                h5: doc_heading(yaml_get_of(h, "h5"@)),
                h6: doc_heading(yaml_get_of(h, "h6"@)),
            },
            None => crate::theme::HeadingStylesA {
                h1: doc_heading(None),
                h2: doc_heading(None),
                h3: doc_heading(None),
                h4: doc_heading(None),
                h5: doc_heading(None),
                h6: doc_heading(None),
            },
        },
        code: match yaml_get_of(v, "code"@) {
            Some(c) => CodeStyle {
                colors: doc_colors_under(c, "colors"@),
                padding_horizontal: doc_u8(c, "padding_horizontal"@),
                padding_vertical: doc_u8(c, "padding_vertical"@),
                alignment: None,
            },
            None => CodeStyle {
                colors: no_colors_spec(),
                padding_horizontal: None,
                padding_vertical: None,
                alignment: None,
            },
        },
        block_quote: match yaml_get_of(v, "block_quote"@) {
            Some(b) => crate::theme::BlockQuoteStyleA {
                colors: doc_colors_under(b, "colors"@),
                prefix: doc_string(b, "prefix"@),
                alignment: None,
            },
            None => crate::theme::BlockQuoteStyleA {
                colors: no_colors_spec(),
                prefix: None,
                alignment: None,
            },
        },
        footer: match yaml_get_of(v, "footer"@) {
            Some(f) => doc_footer(f),
            None => None,
        },
    }
}

/// The theme selection the document configures under `theme`.
pub open spec fn doc_theme_meta(doc: serde_yaml::Value) -> ThemeMetaA {
    match yaml_get_of(doc, "theme"@) {
        Some(tv) => ThemeMetaA {
            name: doc_string(tv, "name"@),
            path: doc_string(tv, "path"@),
            overrides: match yaml_get_of(tv, "override"@) {
                Some(ov) => Some(doc_overrides(ov)),
                None => None,
            },
        },
        None => ThemeMetaA { name: None, path: None, overrides: None },
    }
}

/// The whole configuration the document holds.
pub open spec fn doc_meta(doc: serde_yaml::Value) -> MetaA {
    MetaA {
        title: doc_string(doc, "title"@),
        sub_title: doc_string(doc, "sub_title"@),
        author: doc_string(doc, "author"@),
        theme: doc_theme_meta(doc),
    }
}

/// The value of one hexadecimal digit.
pub open spec fn hex_digit_val(c: char) -> Option<u8> {
    if 48 <= c as u32 && c as u32 <= 57 {
        Some(((c as u32) - 48) as u8)
    } else if 97 <= c as u32 && c as u32 <= 102 {
        Some(((c as u32) - 87) as u8)
    } else if 65 <= c as u32 && c as u32 <= 70 {
        Some(((c as u32) - 55) as u8)
    } else {
        None
    }
}

fn hex_digit(c: char) -> (r: Option<u8>)
    ensures
        r == hex_digit_val(c),
        r matches Some(v) ==> v < 16,
{
    let n = c as u32;
    if 48 <= n && n <= 57 {
        Some((n - 48) as u8)
    } else if 97 <= n && n <= 102 {
        Some((n - 87) as u8)
    } else if 65 <= n && n <= 70 {
        Some((n - 55) as u8)
    } else {
        None
    }
}

/// The color a configuration string names: one of the known color names, or
/// six hexadecimal digits read as an RGB triple.
pub open spec fn parsed_color(s: Seq<char>) -> Option<Color> {
    if s == "black"@ {
        Some(Color::Black)
    } else if s == "dark_grey"@ {
        Some(Color::DarkGrey)
    } else if s == "red"@ {
        Some(Color::Red)
    } else if s == "green"@ {
        Some(Color::Green)
    } else if s == "yellow"@ {
        Some(Color::Yellow)
    } else if s == "blue"@ {
        Some(Color::Blue)
    } else if s == "magenta"@ {
        Some(Color::Magenta)
    } else if s == "cyan"@ {
        Some(Color::Cyan)
    } else if s == "white"@ {
        Some(Color::White)
    } else if s == "grey"@ {
        Some(Color::Grey)
    } else if s.len() == 6 && (forall|i: int| 0 <= i < 6 ==> hex_digit_val(s[i]) is Some) {
        Some(
            Color::Rgb {
                r: (hex_digit_val(s[0]).unwrap() * 16 + hex_digit_val(s[1]).unwrap()) as u8,
                g: (hex_digit_val(s[2]).unwrap() * 16 + hex_digit_val(s[3]).unwrap()) as u8,
                b: (hex_digit_val(s[4]).unwrap() * 16 + hex_digit_val(s[5]).unwrap()) as u8,
            },
        )
    } else {
        None
    }
}

/// Parse a configured color.
pub fn parse_color(s: &str) -> (r: Option<Color>)
    ensures
        r == parsed_color(s@),
{
    if str_eq(s, "black") {
        Some(Color::Black)
    } else if str_eq(s, "dark_grey") {
        Some(Color::DarkGrey)
    } else if str_eq(s, "red") {
        Some(Color::Red)
    } else if str_eq(s, "green") {
        Some(Color::Green)
    } else if str_eq(s, "yellow") {
        Some(Color::Yellow)
    } else if str_eq(s, "blue") {
        Some(Color::Blue)
    } else if str_eq(s, "magenta") {
        Some(Color::Magenta)
    } else if str_eq(s, "cyan") {
        Some(Color::Cyan)
    } else if str_eq(s, "white") {
        Some(Color::White)
    } else if str_eq(s, "grey") {
        Some(Color::Grey)
    } else {
        let chars = crate::strutil::to_chars(s);
        if chars.len() != 6 {
            return None;
        }
        let d0 = hex_digit(chars[0]);
        let d1 = hex_digit(chars[1]);
        let d2 = hex_digit(chars[2]);
        let d3 = hex_digit(chars[3]);
        let d4 = hex_digit(chars[4]);
        let d5 = hex_digit(chars[5]);
        match (d0, d1, d2, d3, d4, d5) {
            (Some(a), Some(b), Some(c), Some(d), Some(e), Some(f)) => Some(
                Color::Rgb { r: a * 16 + b, g: c * 16 + d, b: e * 16 + f },
            ),
            _ => None,
        }
    }
}

fn get_string(v: &serde_yaml::Value, key: &str) -> (r: Option<String>)
    ensures
        crate::theme::opt_str_abs(r) == doc_string(*v, key@),
{
    match yaml_get(v, key) {
        Some(x) => yaml_as_str(x),
        None => None,
    }
}

fn get_u8(v: &serde_yaml::Value, key: &str) -> (r: Option<u8>)
    ensures
        r == doc_u8(*v, key@),
{
    match yaml_get(v, key) {
        Some(x) => match yaml_as_u64(x) {
            Some(n) => if n <= 255 {
                Some(n as u8)
            } else {
                None
            },
            None => None,
        },
        None => None,
    }
}

fn get_bool(v: &serde_yaml::Value, key: &str) -> (r: Option<bool>)
    ensures
        r == doc_bool(*v, key@),
{
    match yaml_get(v, key) {
        Some(x) => yaml_as_bool(x),
        None => None,
    }
}

fn get_colors(v: &serde_yaml::Value) -> (r: Colors)
    ensures
        r == doc_colors(*v),
{
    let foreground = match get_string(v, "foreground") {
        Some(s) => parse_color(s.as_str()),
        None => None,
    };
    let background = match get_string(v, "background") {
        Some(s) => parse_color(s.as_str()),
        None => None,
    };
    Colors { foreground, background }
}

fn get_colors_under(v: &serde_yaml::Value, key: &str) -> (r: Colors)
    ensures
        r == doc_colors_under(*v, key@),
{
    match yaml_get(v, key) {
        Some(c) => get_colors(c),
        None => Colors { foreground: None, background: None },
    }
}

fn empty_heading() -> (r: HeadingStyle)
    ensures
        r@ == doc_heading(None),
{
    HeadingStyle {
        colors: Colors { foreground: None, background: None },
        prefix: None,
        alignment: None,
    }
}

fn heading_overrides(v: Option<&serde_yaml::Value>) -> (r: HeadingStyle)
    ensures
        r@ == doc_heading(
            match v {
                Some(x) => Some(*x),
                None => None,
            },
        ),
{
    match v {
        Some(h) => HeadingStyle {
            colors: get_colors_under(h, "colors"),
            prefix: get_string(h, "prefix"),
            alignment: None,
        },
        None => empty_heading(),
    }
}

fn footer_overrides(v: &serde_yaml::Value) -> (r: Option<FooterStyle>)
    ensures
        crate::theme::opt_footer_abs(r) == doc_footer(*v),
{
    let style = get_string(v, "style");
    match style {
        Some(s) => {
            if str_eq(s.as_str(), "template") {
                Some(
                    FooterStyle::Template {
                        left: get_string(v, "left"),
                        right: get_string(v, "right"),
                        colors: get_colors_under(v, "colors"),
                    },
                )
            } else if str_eq(s.as_str(), "progress_bar") {
                let character = match get_string(v, "character") {
                    Some(c) => {
                        let chars = crate::strutil::to_chars(c.as_str());
                        if chars.len() > 0 {
                            Some(chars[0])
                        } else {
                            None
                        }
                    },
                    None => None,
                };
                Some(FooterStyle::ProgressBar { character, colors: get_colors_under(v, "colors") })
            } else if str_eq(s.as_str(), "empty") {
                Some(FooterStyle::Empty)
            } else {
                None
            }
        },
        None => None,
    }
}

/// Read the recognized theme-override keys out of a parsed `override`
/// mapping. Unknown keys are ignored; everything absent stays absent and
/// falls through to the base theme when merged.
fn theme_overrides(v: &serde_yaml::Value) -> (r: PresentationTheme)
    ensures
        r@ == doc_overrides(*v),
{
    let no_colors = Colors { foreground: None, background: None };
    let default_style = BasicStyle {
        colors: match yaml_get(v, "default") {
            Some(d) => get_colors_under(d, "colors"),
            None => no_colors,
        },
        alignment: None,
    };
    let slide_title = match yaml_get(v, "slide_title") {
        Some(st) => SlideTitleStyle {
            colors: get_colors_under(st, "colors"),
            padding_top: get_u8(st, "padding_top"),
            padding_bottom: get_u8(st, "padding_bottom"),
            separator: get_bool(st, "separator"),
            alignment: None,
        },
        None => SlideTitleStyle {
            colors: no_colors,
            padding_top: None,
            padding_bottom: None,
            separator: None,
            alignment: None,
        },
    };
    let headings = match yaml_get(v, "headings") {
        Some(h) => HeadingStyles {
            h1: heading_overrides(yaml_get(h, "h1")),
            h2: heading_overrides(yaml_get(h, "h2")),
            h3: heading_overrides(yaml_get(h, "h3")),
            h4: heading_overrides(yaml_get(h, "h4")),
            h5: heading_overrides(yaml_get(h, "h5")),
            h6: heading_overrides(yaml_get(h, "h6")),
        },
        None => HeadingStyles {
            h1: empty_heading(),
            h2: empty_heading(),
            h3: empty_heading(),
            h4: empty_heading(),
            h5: empty_heading(),
            h6: empty_heading(),
        },
    };
    let code = match yaml_get(v, "code") {
        Some(c) => CodeStyle {
            colors: get_colors_under(c, "colors"),
            padding_horizontal: get_u8(c, "padding_horizontal"),
            padding_vertical: get_u8(c, "padding_vertical"),
            alignment: None,
        },
        None => CodeStyle {
            colors: no_colors,
            padding_horizontal: None,
            padding_vertical: None,
            alignment: None,
        },
    };
    let block_quote = match yaml_get(v, "block_quote") {
        Some(b) => BlockQuoteStyle {
            colors: get_colors_under(b, "colors"),
            prefix: get_string(b, "prefix"),
            alignment: None,
        },
        None => BlockQuoteStyle { colors: no_colors, prefix: None, alignment: None },
    };
    let footer = match yaml_get(v, "footer") {
        Some(f) => footer_overrides(f),
        None => None,
    };
    PresentationTheme {
        default_style,
        intro_slide: IntroSlideStyle {
            title: BasicStyle { colors: no_colors, alignment: None },
            subtitle: BasicStyle { colors: no_colors, alignment: None },
            author: BasicStyle { colors: no_colors, alignment: None },
            positioning: None,
        },
        slide_title,
        headings,
        code,
        block_quote,
        footer,
    }
}

/// Parse front-matter text into presentation metadata, or the reason it is
/// malformed.
pub fn parse_metadata(contents: &str) -> (r: Result<PresentationMetadata, String>)
    ensures
        r is Ok <==> yaml_doc_of(contents@) is Some,
        r matches Ok(md) ==> yaml_doc_of(contents@) matches Some(doc) && md@ == doc_meta(doc),
{
    match yaml_parse(contents) {
        Err(e) => Err(yaml_error_message(&e)),
        Ok(v) => {
            let title = get_string(&v, "title");
            let sub_title = get_string(&v, "sub_title");
            let author = get_string(&v, "author");
            let theme = match yaml_get(&v, "theme") {
                Some(tv) => PresentationThemeMetadata {
                    theme_name: get_string(tv, "name"),
                    theme_path: get_string(tv, "path"),
                    overrides: match yaml_get(tv, "override") {
                        Some(ov) => Some(theme_overrides(ov)),
                        None => None,
                    },
                },
                None => PresentationThemeMetadata {
                    theme_name: None,
                    theme_path: None,
                    overrides: None,
                },
            };
            Ok(PresentationMetadata { title, sub_title, author, theme })
        },
    }
}

} // verus!
