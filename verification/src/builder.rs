//! The presentation builder: structural elements in, slides of render
//! operations out.
//!
//! Every push routine's contract states exactly which operations it appends,
//! in terms of the emission functions below; `build` is then proved equal to
//! the pure model [`build_model`], and the slide laws are lemmas over that
//! model: the prelude counts ([`lemma_model_prelude_invariant`]), the
//! footer positions ([`lemma_model_footer_positions`]), the opening shape
//! ([`lemma_model_slides_open_with_one_break`]) and the incremental-reveal
//! prefixes ([`lemma_model_pause_prefixes`]).

use vstd::prelude::*;
use vstd::string::*;
use crate::elements::{Code, ListItem, ListItemType, MarkdownElement, ParagraphElement, Table, TableRow};
use crate::highlighting::CodeHighlighter;
use crate::metadata::{MetaA, PresentationMetadata, ThemeMetaA, doc_meta, parse_metadata, yaml_doc_of};
use crate::presentation::{FooterContext, FooterGenerator, OpV, Presentation, RenderOperation, Slide, clone_ops, ops_abs, slides_abs};
use crate::resources::{LoadImageError, LoadThemeError, Resources, has_image, theme_lookup};
use crate::strutil::{decimal, lines_of, spaces, trim_end, trim_end_spec, u64_to_string, str_eq, repeat_char};
use crate::style::{Colors, TextStyle};
use crate::text::{ChunkV, StyledText, Text, WeightedLine, WeightedText, applied_style, chunks_abs, joined};
use crate::theme::{ElementType, FooterStyleA, PresentationTheme, ThemeA, merged_theme};
use crate::width::{display_width, measure_str};

verus! {

/// An error when building a presentation.
#[derive(Debug)]
pub enum BuildError {
    LoadImage(LoadImageError),
    InvalidMetadata(String),
    InvalidTheme(LoadThemeError),
}

/// A directive comment.
#[derive(Clone, Copy, Debug)]
pub enum Comment {
    Pause,
    EndSlide,
}

/// The directive a comment holds, if any: unrecognized text is no directive
/// and no error.
pub open spec fn comment_of(s: Seq<char>) -> Option<Comment> {
    if s == "pause"@ {
        Some(Comment::Pause)
    } else if s == "end_slide"@ {
        Some(Comment::EndSlide)
    } else {
        None
    }
}

/// Parse a directive comment.
pub fn parse_comment(s: &str) -> (r: Option<Comment>)
    ensures
        r == comment_of(s@),
{
    if str_eq(s, "pause") {
        Some(Comment::Pause)
    } else if str_eq(s, "end_slide") {
        Some(Comment::EndSlide)
    } else {
        None
    }
}

/// `n` line breaks.
pub open spec fn line_breaks(n: nat) -> Seq<OpV> {
    Seq::new(n, |i: int| OpV::LineBreakV)
}

/// The bold style carrying the given colors.
pub open spec fn bold_with(colors: Colors) -> TextStyle {
    TextStyle { bold: true, italics: false, code: false, colors }
}

/// `n` capped at the largest length an operation can carry.
pub open spec fn sat_cap(n: nat) -> nat {
    if n > usize::MAX as nat {
        usize::MAX as nat
    } else {
        n
    }
}

/// The slide prelude: the theme's default colors, a cleared screen, and one
/// line break.
pub open spec fn prelude_abs(t: ThemeA) -> Seq<OpV> {
    seq![
        OpV::SetColorsV(t.default_style.colors),
        OpV::ClearScreenV,
        OpV::LineBreakV,
    ]
}

/// What pushing a text line emits: inline-code chunks take the theme's code
/// colors, and an empty chunk list emits nothing.
pub open spec fn text_line_ops(t: ThemeA, chunks: Seq<ChunkV>, et: ElementType) -> Seq<OpV> {
    let colored = chunks.map_values(
        |c: ChunkV| if c.style.code {
            ChunkV {
                text: c.text,
                style: TextStyle {
                    bold: c.style.bold,
                    italics: c.style.italics,
                    code: c.style.code,
                    colors: t.code.colors,
                },
            }
        } else {
            c
        },
    );
    if chunks.len() == 0 {
        Seq::<OpV>::empty()
    } else {
        seq![
            OpV::TextLineV {
                line: colored,
                alignment: PresentationTheme::alignment_spec(t, et),
            },
        ]
    }
}

/// The element type of a heading level.
pub open spec fn element_type_for(level: u8) -> ElementType {
    if level == 1 {
        ElementType::Heading1
    } else if level == 2 {
        ElementType::Heading2
    } else if level == 3 {
        ElementType::Heading3
    } else if level == 4 {
        ElementType::Heading4
    } else if level == 5 {
        ElementType::Heading5
    } else {
        ElementType::Heading6
    }
}

/// The heading style of a heading level.
pub open spec fn heading_style_for(t: ThemeA, level: u8) -> crate::theme::HeadingStyleA {
    if level == 1 {
        t.headings.h1
    } else if level == 2 {
        t.headings.h2
    } else if level == 3 {
        t.headings.h3
    } else if level == 4 {
        t.headings.h4
    } else if level == 5 {
        t.headings.h5
    } else {
        t.headings.h6
    }
}

/// What a heading emits: the optional theme prefix plus one separating
/// space is prepended as a leading chunk, the whole line is made bold in
/// the level's colors, and a line break follows.
pub open spec fn heading_ops(t: ThemeA, level: u8, text: Seq<ChunkV>) -> Seq<OpV> {
    let style = heading_style_for(t, level);
    let base = match style.prefix {
        Some(p) => seq![ChunkV { text: p.push(' '), style: TextStyle::plain_spec() }] + text,
        None => text,
    };
    text_line_ops(t, applied_style(base, bold_with(style.colors)), element_type_for(level)) + seq![
        OpV::LineBreakV,
    ]
}

/// What a slide title emits: top padding, the bold title line, a break,
/// bottom padding, an optional separator, and one more break.
pub open spec fn slide_title_ops(t: ThemeA, text: Seq<ChunkV>) -> Seq<OpV> {
    let st = t.slide_title;
    let pt = match st.padding_top {
        Some(n) => n as nat,
        None => 0,
    };
    let pb = match st.padding_bottom {
        Some(n) => n as nat,
        None => 0,
    };
    let sep = match st.separator {
        Some(b) => b,
        None => false,
    };
    line_breaks(pt) + text_line_ops(
        t,
        applied_style(text, bold_with(st.colors)),
        ElementType::SlideTitle,
    ) + seq![OpV::LineBreakV] + line_breaks(pb) + (if sep {
        seq![OpV::SeparatorV]
    } else {
        Seq::<OpV>::empty()
    }) + seq![OpV::LineBreakV]
}

/// What one paragraph piece emits.
pub open spec fn paragraph_piece_ops(t: ThemeA, e: ParagraphElement) -> Seq<OpV> {
    match e {
        ParagraphElement::Text(x) => text_line_ops(t, x@, ElementType::Paragraph) + seq![
            OpV::LineBreakV,
        ],
        ParagraphElement::LineBreak => Seq::<OpV>::empty(),
    }
}

/// What a paragraph emits: one text line plus break per text run; explicit
/// break markers are no-ops.
pub open spec fn paragraph_ops(t: ThemeA, elements: Seq<ParagraphElement>) -> Seq<OpV>
    decreases elements.len(),
{
    if elements.len() == 0 {
        Seq::<OpV>::empty()
    } else {
        paragraph_piece_ops(t, elements[0]) + paragraph_ops(t, elements.skip(1))
    }
}

/// Appending a piece appends its emission.
pub proof fn lemma_paragraph_ops_push(t: ThemeA, s: Seq<ParagraphElement>, x: ParagraphElement)
    ensures
        paragraph_ops(t, s.push(x)) == paragraph_ops(t, s) + paragraph_piece_ops(t, x),
    decreases s.len(),
{
    if s.len() == 0 {
        assert(s.push(x).skip(1) =~= Seq::<ParagraphElement>::empty());
        assert(s.push(x)[0] == x);
        assert(paragraph_ops(t, Seq::<ParagraphElement>::empty()) =~= Seq::<OpV>::empty());
        assert(paragraph_ops(t, s.push(x)) =~= paragraph_piece_ops(t, x));
        assert(paragraph_ops(t, s) + paragraph_piece_ops(t, x) =~= paragraph_piece_ops(t, x));
    } else {
        assert(s.push(x).skip(1) =~= s.skip(1).push(x));
        lemma_paragraph_ops_push(t, s.skip(1), x);
        assert(s.push(x)[0] == s[0]);
        assert(paragraph_ops(t, s.push(x)) == paragraph_piece_ops(t, s[0]) + (paragraph_ops(
            t,
            s.skip(1),
        ) + paragraph_piece_ops(t, x)));
        assert(paragraph_piece_ops(t, s[0]) + (paragraph_ops(t, s.skip(1)) + paragraph_piece_ops(
            t,
            x,
        )) =~= (paragraph_piece_ops(t, s[0]) + paragraph_ops(t, s.skip(1))) + paragraph_piece_ops(
            t,
            x,
        ));
    }
}

/// The marker prefix of one list item: indentation, the marker, and one
/// trailing space.
pub open spec fn list_item_prefix(item: ListItem) -> Seq<char> {
    let padding = Seq::new(((item.depth as nat) + 1) * 2, |i: int| ' ');
    let marker = match item.item_type {
        ListItemType::Unordered => if item.depth == 0 {
            seq!['\u{2022}']
        } else if item.depth == 1 {
            seq!['\u{25e6}']
        } else {
            seq!['\u{25aa}']
        },
        ListItemType::OrderedParens(n) => decimal(n as nat) + seq![')', ' '],
        ListItemType::OrderedPeriod(n) => decimal(n as nat) + seq!['.', ' '],
    };
    padding + marker + seq![' ']
}

/// What one list item emits: its prefixed text line plus a break.
pub open spec fn list_item_ops(t: ThemeA, item: ListItem) -> Seq<OpV> {
    let chunks = seq![ChunkV { text: list_item_prefix(item), style: TextStyle::plain_spec() }]
        + item.contents@;
    text_line_ops(t, chunks, ElementType::List) + seq![OpV::LineBreakV]
}

/// What a list emits: each item in order.
pub open spec fn list_ops(t: ThemeA, items: Seq<ListItem>) -> Seq<OpV>
    decreases items.len(),
{
    if items.len() == 0 {
        Seq::<OpV>::empty()
    } else {
        list_item_ops(t, items[0]) + list_ops(t, items.skip(1))
    }
}

/// Appending an item appends its emission.
pub proof fn lemma_list_ops_push(t: ThemeA, s: Seq<ListItem>, x: ListItem)
    ensures
        list_ops(t, s.push(x)) == list_ops(t, s) + list_item_ops(t, x),
    decreases s.len(),
{
    if s.len() == 0 {
        assert(s.push(x).skip(1) =~= Seq::<ListItem>::empty());
        assert(s.push(x)[0] == x);
        assert(list_ops(t, Seq::<ListItem>::empty()) =~= Seq::<OpV>::empty());
        assert(list_ops(t, s.push(x)) =~= list_item_ops(t, x));
        assert(list_ops(t, s) + list_item_ops(t, x) =~= list_item_ops(t, x));
    } else {
        assert(s.push(x).skip(1) =~= s.skip(1).push(x));
        lemma_list_ops_push(t, s.skip(1), x);
        assert(s.push(x)[0] == s[0]);
        assert(list_ops(t, s.push(x)) == list_item_ops(t, s[0]) + (list_ops(t, s.skip(1))
            + list_item_ops(t, x)));
        assert(list_item_ops(t, s[0]) + (list_ops(t, s.skip(1)) + list_item_ops(t, x)) =~= (
        list_item_ops(t, s[0]) + list_ops(t, s.skip(1))) + list_item_ops(t, x));
    }
}

/// What a block quote emits: switch to the quote colors, one preformatted
/// line per quoted line (prefixed, sharing the block width), and a switch
/// back to the default colors.
pub open spec fn quote_ops(t: ThemeA, lines: Seq<String>) -> Seq<OpV> {
    let prefix = match t.block_quote.prefix {
        Some(p) => p,
        None => Seq::<char>::empty(),
    };
    let block = quote_block_len(lines, prefix);
    seq![OpV::SetColorsV(t.block_quote.colors)] + quote_lines_ops(t, prefix, block, lines) + seq![
        OpV::SetColorsV(t.default_style.colors),
    ]
}

/// What one quoted line emits.
pub open spec fn quote_line_ops(t: ThemeA, prefix: Seq<char>, block: nat, l: String) -> Seq<OpV> {
    seq![
        OpV::PreformattedLineV {
            text: prefix + l@,
            unformatted_length: display_width(prefix + l@),
            block_length: block,
            alignment: PresentationTheme::alignment_spec(t, ElementType::BlockQuote),
        },
        OpV::LineBreakV,
    ]
}

/// The quoted lines' emissions, in order.
pub open spec fn quote_lines_ops(t: ThemeA, prefix: Seq<char>, block: nat, lines: Seq<String>) -> Seq<
    OpV,
>
    decreases lines.len(),
{
    if lines.len() == 0 {
        Seq::<OpV>::empty()
    } else {
        quote_line_ops(t, prefix, block, lines[0]) + quote_lines_ops(t, prefix, block, lines.skip(1))
    }
}

/// Appending a line appends its emission.
pub proof fn lemma_quote_lines_ops_push(
    t: ThemeA,
    prefix: Seq<char>,
    block: nat,
    s: Seq<String>,
    x: String,
)
    ensures
        quote_lines_ops(t, prefix, block, s.push(x)) == quote_lines_ops(t, prefix, block, s)
            + quote_line_ops(t, prefix, block, x),
    decreases s.len(),
{
    if s.len() == 0 {
        assert(s.push(x).skip(1) =~= Seq::<String>::empty());
        assert(s.push(x)[0] == x);
        assert(quote_lines_ops(t, prefix, block, Seq::<String>::empty()) =~= Seq::<OpV>::empty());
        assert(quote_lines_ops(t, prefix, block, s.push(x)) =~= quote_line_ops(t, prefix, block, x));
        assert(quote_lines_ops(t, prefix, block, s) + quote_line_ops(t, prefix, block, x)
            =~= quote_line_ops(t, prefix, block, x));
    } else {
        assert(s.push(x).skip(1) =~= s.skip(1).push(x));
        lemma_quote_lines_ops_push(t, prefix, block, s.skip(1), x);
        assert(s.push(x)[0] == s[0]);
        assert(quote_lines_ops(t, prefix, block, s.push(x)) == quote_line_ops(t, prefix, block, s[0])
            + (quote_lines_ops(t, prefix, block, s.skip(1)) + quote_line_ops(t, prefix, block, x)));
        assert(quote_line_ops(t, prefix, block, s[0]) + (quote_lines_ops(t, prefix, block, s.skip(1))
            + quote_line_ops(t, prefix, block, x)) =~= (quote_line_ops(t, prefix, block, s[0])
            + quote_lines_ops(t, prefix, block, s.skip(1))) + quote_line_ops(t, prefix, block, x));
    }
}

/// The block width of a quote: the widest prefixed line.
pub open spec fn quote_block_len(lines: Seq<String>, prefix: Seq<char>) -> nat
    decreases lines.len(),
{
    if lines.len() == 0 {
        0
    } else {
        let w = display_width(prefix + lines[0]@);
        let rest = quote_block_len(lines.skip(1), prefix);
        if w >= rest {
            w
        } else {
            rest
        }
    }
}

/// Growing the line list can only widen the block.
pub proof fn lemma_quote_block_len_push(lines: Seq<String>, prefix: Seq<char>, x: String)
    ensures
        quote_block_len(lines.push(x), prefix) == if display_width(prefix + x@) >= quote_block_len(
            lines,
            prefix,
        ) {
            display_width(prefix + x@)
        } else {
            quote_block_len(lines, prefix)
        },
    decreases lines.len(),
{
    if lines.len() == 0 {
        assert(lines.push(x).skip(1) =~= Seq::<String>::empty());
        assert(lines.push(x)[0] == x);
        assert(quote_block_len(Seq::<String>::empty(), prefix) == 0);
        assert(quote_block_len(lines.push(x), prefix) == display_width(prefix + x@));
    } else {
        assert(lines.push(x).skip(1) =~= lines.skip(1).push(x));
        lemma_quote_block_len_push(lines.skip(1), prefix, x);
        assert(lines.push(x)[0] == lines[0]);
        assert(quote_block_len(lines.skip(1).push(x), prefix) == quote_block_len(
            lines.push(x).skip(1),
            prefix,
        ));
    }
}

/// The state the builder threads through the document: the in-progress
/// operations, the completed slides, and the two bookkeeping flags.
#[verifier::ext_equal]
pub struct BuildStateA {
    pub ops: Seq<OpV>,
    pub slides: Seq<Seq<OpV>>,
    pub ignore_break: bool,
    pub last_is_list: bool,
}

/// The footer operation closing slide `idx`.
pub open spec fn footer_op_abs(t: ThemeA, idx: nat) -> OpV {
    OpV::DynamicV {
        current_slide: idx,
        style: match t.footer {
            Some(f) => f,
            None => FooterStyleA::EmptyA,
        },
    }
}

/// Slide termination: append the footer, close the slide, and start the
/// next one with a fresh prelude.
pub open spec fn terminate_spec(t: ThemeA, st: BuildStateA) -> BuildStateA {
    BuildStateA {
        ops: prelude_abs(t),
        slides: st.slides.push(st.ops + seq![footer_op_abs(t, st.slides.len())]),
        ignore_break: true,
        last_is_list: st.last_is_list,
    }
}

/// Incremental reveal: drop a trailing break after a list, close the slide,
/// and carry the accumulated operations into the next slide unchanged.
pub open spec fn pause_spec(t: ThemeA, st: BuildStateA) -> BuildStateA {
    let base = if st.last_is_list && st.ops.len() > 0 && st.ops.last() is LineBreakV {
        st.ops.drop_last()
    } else {
        st.ops
    };
    BuildStateA {
        ops: base,
        slides: st.slides.push(base + seq![footer_op_abs(t, st.slides.len())]),
        ignore_break: true,
        last_is_list: st.last_is_list,
    }
}

/// Code lines joined back together, each left-padded and newline-terminated.
pub open spec fn flat_padded_lines(lines: Seq<Seq<char>>, hp: nat) -> Seq<char>
    decreases lines.len(),
{
    if lines.len() == 0 {
        Seq::<char>::empty()
    } else {
        Seq::new(hp, |i: int| ' ') + lines[0] + seq!['\n'] + flat_padded_lines(lines.skip(1), hp)
    }
}

/// Appending a line appends its padded, terminated form.
pub proof fn lemma_flat_padded_lines_push(lines: Seq<Seq<char>>, hp: nat, x: Seq<char>)
    ensures
        flat_padded_lines(lines.push(x), hp) == flat_padded_lines(lines, hp) + (Seq::new(
            hp,
            |i: int| ' ',
        ) + x + seq!['\n']),
    decreases lines.len(),
{
    let piece = Seq::new(hp, |i: int| ' ') + x + seq!['\n'];
    if lines.len() == 0 {
        assert(lines.push(x).skip(1) =~= Seq::<Seq<char>>::empty());
        assert(lines.push(x)[0] == x);
        assert(flat_padded_lines(Seq::<Seq<char>>::empty(), hp) =~= Seq::<char>::empty());
        assert(flat_padded_lines(lines.push(x), hp) =~= piece);
        assert(flat_padded_lines(lines, hp) + piece =~= piece);
    } else {
        assert(lines.push(x).skip(1) =~= lines.skip(1).push(x));
        lemma_flat_padded_lines_push(lines.skip(1), hp, x);
        assert(lines.push(x)[0] == lines[0]);
        let head = Seq::new(hp, |i: int| ' ') + lines[0] + seq!['\n'];
        assert(flat_padded_lines(lines.push(x), hp) == head + (flat_padded_lines(
            lines.skip(1),
            hp,
        ) + piece));
        assert(head + (flat_padded_lines(lines.skip(1), hp) + piece) =~= (head + flat_padded_lines(
            lines.skip(1),
            hp,
        )) + piece);
        assert(head + flat_padded_lines(lines.skip(1), hp) =~= flat_padded_lines(lines, hp));
    }
}

/// The code text after padding: a blank line before and after when vertical
/// padding is positive, and each line indented when horizontal padding is.
pub open spec fn padded_code(contents: Seq<char>, hp: nat, vp: nat) -> Seq<char> {
    if hp == 0 && vp == 0 {
        contents
    } else {
        let middle = if hp > 0 {
            flat_padded_lines(lines_of(contents), hp)
        } else {
            contents
        };
        (if vp > 0 {
            seq!['\n']
        } else {
            Seq::<char>::empty()
        }) + middle + (if vp > 0 {
            seq!['\n']
        } else {
            Seq::<char>::empty()
        })
    }
}

/// The widest line.
pub open spec fn max_line_width(lines: Seq<Seq<char>>) -> nat
    decreases lines.len(),
{
    if lines.len() == 0 {
        0
    } else {
        let w = display_width(lines[0]);
        let rest = max_line_width(lines.skip(1));
        if w >= rest {
            w
        } else {
            rest
        }
    }
}

/// Growing the line list can only widen the maximum.
pub proof fn lemma_max_line_width_push(lines: Seq<Seq<char>>, x: Seq<char>)
    ensures
        max_line_width(lines.push(x)) == if display_width(x) >= max_line_width(lines) {
            display_width(x)
        } else {
            max_line_width(lines)
        },
    decreases lines.len(),
{
    if lines.len() == 0 {
        assert(lines.push(x).skip(1) =~= Seq::<Seq<char>>::empty());
        assert(lines.push(x)[0] == x);
        assert(max_line_width(Seq::<Seq<char>>::empty()) == 0);
        assert(max_line_width(lines.push(x)) == display_width(x));
    } else {
        assert(lines.push(x).skip(1) =~= lines.skip(1).push(x));
        lemma_max_line_width_push(lines.skip(1), x);
        assert(lines.push(x)[0] == lines[0]);
        assert(max_line_width(lines.push(x).skip(1)) == max_line_width(lines.skip(1).push(x)));
    }
}

/// Trimming trailing whitespace leaves a prefix of the line.
pub proof fn lemma_trim_end_is_prefix(s: Seq<char>)
    ensures
        trim_end_spec(s).len() <= s.len(),
        trim_end_spec(s) == s.take(trim_end_spec(s).len() as int),
    decreases s.len(),
{
    if s.len() == 0 {
        assert(s.take(0) =~= s);
    } else if crate::strutil::is_trim_ws(s.last()) {
        lemma_trim_end_is_prefix(s.drop_last());
        assert(s.drop_last().take(trim_end_spec(s).len() as int) =~= s.take(
            trim_end_spec(s).len() as int,
        ));
    } else {
        assert(s.take(s.len() as int) =~= s);
    }
}

/// What one highlighted code line emits: the line with trailing whitespace
/// trimmed, its true visual width, and the shared block width.
pub open spec fn code_one_line_ops(t: ThemeA, l: Seq<char>, block: nat) -> Seq<OpV> {
    seq![
        OpV::PreformattedLineV {
            text: trim_end_spec(l),
            unformatted_length: display_width(trim_end_spec(l)),
            block_length: block,
            alignment: PresentationTheme::alignment_spec(t, ElementType::Code),
        },
        OpV::LineBreakV,
    ]
}

/// The highlighted lines' emissions, in order.
pub open spec fn code_line_ops(t: ThemeA, lines: Seq<Seq<char>>, block: nat) -> Seq<OpV>
    decreases lines.len(),
{
    if lines.len() == 0 {
        Seq::<OpV>::empty()
    } else {
        code_one_line_ops(t, lines[0], block) + code_line_ops(t, lines.skip(1), block)
    }
}

/// Appending a line appends its emission.
pub proof fn lemma_code_line_ops_push(t: ThemeA, s: Seq<Seq<char>>, block: nat, x: Seq<char>)
    ensures
        code_line_ops(t, s.push(x), block) == code_line_ops(t, s, block) + code_one_line_ops(
            t,
            x,
            block,
        ),
    decreases s.len(),
{
    if s.len() == 0 {
        assert(s.push(x).skip(1) =~= Seq::<Seq<char>>::empty());
        assert(s.push(x)[0] == x);
        assert(code_line_ops(t, Seq::<Seq<char>>::empty(), block) =~= Seq::<OpV>::empty());
        assert(code_line_ops(t, s.push(x), block) =~= code_one_line_ops(t, x, block));
        assert(code_line_ops(t, s, block) + code_one_line_ops(t, x, block) =~= code_one_line_ops(
            t,
            x,
            block,
        ));
    } else {
        assert(s.push(x).skip(1) =~= s.skip(1).push(x));
        lemma_code_line_ops_push(t, s.skip(1), block, x);
        assert(s.push(x)[0] == s[0]);
        assert(code_line_ops(t, s.push(x), block) == code_one_line_ops(t, s[0], block)
            + (code_line_ops(t, s.skip(1), block) + code_one_line_ops(t, x, block)));
        assert(code_one_line_ops(t, s[0], block) + (code_line_ops(t, s.skip(1), block)
            + code_one_line_ops(t, x, block)) =~= (code_one_line_ops(t, s[0], block)
            + code_line_ops(t, s.skip(1), block)) + code_one_line_ops(t, x, block));
    }
}

/// What a code block emits: the padded lines as preformatted lines, all
/// sharing a block width of the widest padded line plus the horizontal
/// padding.
pub open spec fn code_ops(t: ThemeA, code: Code) -> Seq<OpV> {
    let hp = match t.code.padding_horizontal {
        Some(n) => n as nat,
        None => 0,
    };
    let vp = match t.code.padding_vertical {
        Some(n) => n as nat,
        None => 0,
    };
    let padded = padded_code(code.contents@, hp, vp);
    let block = sat_cap(max_line_width(lines_of(padded)) + hp);
    code_line_ops(t, lines_of(padded), block)
}

/// The display width of one table cell, or zero past the row's end.
pub open spec fn cell_width(row: TableRow, j: int) -> nat {
    if 0 <= j < row.0@.len() {
        display_width(joined(row.0@[j]@))
    } else {
        0
    }
}

/// The widest cell of column `j` over the data rows.
pub open spec fn rows_max_width(rows: Seq<TableRow>, j: int) -> nat
    decreases rows.len(),
{
    if rows.len() == 0 {
        0
    } else {
        let w = cell_width(rows[0], j);
        let rest = rows_max_width(rows.skip(1), j);
        if w >= rest {
            w
        } else {
            rest
        }
    }
}

/// Growing the row list can only widen the maximum.
pub proof fn lemma_rows_max_width_push(rows: Seq<TableRow>, j: int, x: TableRow)
    ensures
        rows_max_width(rows.push(x), j) == if cell_width(x, j) >= rows_max_width(rows, j) {
            cell_width(x, j)
        } else {
            rows_max_width(rows, j)
        },
    decreases rows.len(),
{
    if rows.len() == 0 {
        assert(rows.push(x).skip(1) =~= Seq::<TableRow>::empty());
        assert(rows.push(x)[0] == x);
        assert(rows_max_width(Seq::<TableRow>::empty(), j) == 0);
        assert(rows_max_width(rows.push(x), j) == cell_width(x, j));
    } else {
        assert(rows.push(x).skip(1) =~= rows.skip(1).push(x));
        lemma_rows_max_width_push(rows.skip(1), j, x);
        assert(rows.push(x)[0] == rows[0]);
        assert(rows_max_width(rows.push(x).skip(1), j) == rows_max_width(rows.skip(1).push(x), j));
    }
}

/// The width of column `j`: the widest cell in it, header included.
pub open spec fn column_width(tb: Table, j: int) -> nat {
    let hw = cell_width(tb.header, j);
    let rw = rows_max_width(tb.rows@, j);
    if hw >= rw {
        hw
    } else {
        rw
    }
}

/// The column widths, one per header cell.
pub open spec fn table_widths(tb: Table) -> Seq<nat> {
    Seq::new(tb.header.0@.len(), |j: int| column_width(tb, j))
}

/// One row flattened into chunks: cells separated by `" │ "`, each cell
/// right-padded with spaces up to its column width.
pub open spec fn row_chunks_from(cells: Seq<Text>, widths: Seq<nat>, j: int) -> Seq<ChunkV>
    decreases cells.len(),
{
    if cells.len() == 0 {
        Seq::<ChunkV>::empty()
    } else {
        let sep = if j > 0 {
            seq![
                ChunkV { text: seq![' ', '\u{2502}', ' '], style: TextStyle::plain_spec() },
            ]
        } else {
            Seq::<ChunkV>::empty()
        };
        let cw = display_width(joined(cells[0]@));
        let pad = if 0 <= j < widths.len() && cw < widths[j] {
            seq![
                ChunkV {
                    text: Seq::new((widths[j] - cw) as nat, |i: int| ' '),
                    style: TextStyle::plain_spec(),
                },
            ]
        } else {
            Seq::<ChunkV>::empty()
        };
        sep + cells[0]@ + pad + row_chunks_from(cells.skip(1), widths, j + 1)
    }
}

/// A row flattened against the column widths.
pub open spec fn prepared_row_chunks(row: TableRow, widths: Seq<nat>) -> Seq<ChunkV> {
    row_chunks_from(row.0@, widths, 0)
}

/// The separator line's chunks: box-drawing dashes per column, `"┼"` at
/// every interior column boundary, one extra dash for the first column and
/// two for the rest.
pub open spec fn separator_chunks_from(widths: Seq<nat>, j: int) -> Seq<ChunkV>
    decreases widths.len() - j,
{
    if j < 0 || j >= widths.len() {
        Seq::<ChunkV>::empty()
    } else {
        let extra: nat = if j > 0 {
            2
        } else {
            1
        };
        let dashes = Seq::new(sat_cap(widths[j] + extra), |i: int| '\u{2500}');
        let text = if j > 0 {
            seq!['\u{253c}'] + dashes
        } else {
            dashes
        };
        seq![ChunkV { text, style: TextStyle::plain_spec() }] + separator_chunks_from(
            widths,
            j + 1,
        )
    }
}

/// What a table emits: the flattened header, the separator line, and each
/// flattened data row, each followed by a line break.
pub open spec fn table_ops(t: ThemeA, tb: Table) -> Seq<OpV> {
    let widths = table_widths(tb);
    text_line_ops(t, prepared_row_chunks(tb.header, widths), ElementType::Table) + seq![
        OpV::LineBreakV,
    ] + text_line_ops(t, separator_chunks_from(widths, 0), ElementType::Table) + seq![
        OpV::LineBreakV,
    ] + table_rows_ops(t, tb.rows@, widths)
}

/// What one data row emits.
pub open spec fn table_row_ops(t: ThemeA, row: TableRow, widths: Seq<nat>) -> Seq<OpV> {
    text_line_ops(t, prepared_row_chunks(row, widths), ElementType::Table) + seq![OpV::LineBreakV]
}

/// The data rows' emissions, in order.
pub open spec fn table_rows_ops(t: ThemeA, rows: Seq<TableRow>, widths: Seq<nat>) -> Seq<OpV>
    decreases rows.len(),
{
    if rows.len() == 0 {
        Seq::<OpV>::empty()
    } else {
        table_row_ops(t, rows[0], widths) + table_rows_ops(t, rows.skip(1), widths)
    }
}

/// Appending a row appends its emission.
pub proof fn lemma_table_rows_ops_push(t: ThemeA, s: Seq<TableRow>, widths: Seq<nat>, x: TableRow)
    ensures
        table_rows_ops(t, s.push(x), widths) == table_rows_ops(t, s, widths) + table_row_ops(
            t,
            x,
            widths,
        ),
    decreases s.len(),
{
    if s.len() == 0 {
        assert(s.push(x).skip(1) =~= Seq::<TableRow>::empty());
        assert(s.push(x)[0] == x);
        assert(table_rows_ops(t, Seq::<TableRow>::empty(), widths) =~= Seq::<OpV>::empty());
        assert(table_rows_ops(t, s.push(x), widths) =~= table_row_ops(t, x, widths));
        assert(table_rows_ops(t, s, widths) + table_row_ops(t, x, widths) =~= table_row_ops(
            t,
            x,
            widths,
        ));
    } else {
        assert(s.push(x).skip(1) =~= s.skip(1).push(x));
        lemma_table_rows_ops_push(t, s.skip(1), widths, x);
        assert(s.push(x)[0] == s[0]);
        assert(table_rows_ops(t, s.push(x), widths) == table_row_ops(t, s[0], widths)
            + (table_rows_ops(t, s.skip(1), widths) + table_row_ops(t, x, widths)));
        assert(table_row_ops(t, s[0], widths) + (table_rows_ops(t, s.skip(1), widths)
            + table_row_ops(t, x, widths)) =~= (table_row_ops(t, s[0], widths) + table_rows_ops(
            t,
            s.skip(1),
            widths,
        )) + table_row_ops(t, x, widths));
    }
}

/// What the intro slide holds: the vertically centered bold title, the
/// optional subtitle beneath it, and the optional author, either below the
/// title or pinned to the slide bottom.
pub open spec fn intro_ops(t: ThemeA, md: MetaA) -> Seq<OpV> {
    let title_text = match md.title {
        Some(s) => s,
        None => Seq::<char>::empty(),
    };
    let title = seq![ChunkV { text: title_text, style: bold_with(t.intro_slide.title.colors) }];
    let sub = match md.sub_title {
        Some(s) => text_line_ops(
            t,
            seq![
                ChunkV {
                    text: s,
                    style: crate::presentation::plain_with_colors(t.intro_slide.subtitle.colors),
                },
            ],
            ElementType::PresentationSubTitle,
        ) + seq![OpV::LineBreakV],
        None => Seq::<OpV>::empty(),
    };
    let auth = match md.author {
        Some(a) => (match t.intro_slide.positioning {
            Some(crate::theme::AuthorPositioning::PageBottom) => seq![OpV::JumpToSlideBottomV],
            _ => seq![OpV::LineBreakV, OpV::LineBreakV, OpV::LineBreakV],
        }) + text_line_ops(
            t,
            seq![
                ChunkV {
                    text: a,
                    style: crate::presentation::plain_with_colors(t.intro_slide.author.colors),
                },
            ],
            ElementType::PresentationAuthor,
        ),
        None => Seq::<OpV>::empty(),
    };
    seq![OpV::JumpToVerticalCenterV] + text_line_ops(t, title, ElementType::PresentationTitle)
        + seq![OpV::LineBreakV] + sub + auth
}

/// One element's effect on the build state, without the element line break
/// the main loop appends.
pub open spec fn step_core(t: ThemeA, st: BuildStateA, e: MarkdownElement) -> BuildStateA {
    let st1 = match e {
        MarkdownElement::FrontMatter(_) => BuildStateA { ignore_break: true, ..st },
        MarkdownElement::SetexHeading { text } => BuildStateA {
            ops: st.ops + slide_title_ops(t, text@),
            ignore_break: true,
            ..st
        },
        MarkdownElement::Heading { level, text } => BuildStateA {
            ops: st.ops + heading_ops(t, level, text@),
            ignore_break: false,
            ..st
        },
        MarkdownElement::Paragraph(els) => BuildStateA {
            ops: st.ops + paragraph_ops(t, els@),
            ignore_break: false,
            ..st
        },
        MarkdownElement::List(items) => BuildStateA {
            ops: st.ops + list_ops(t, items@),
            ignore_break: false,
            ..st
        },
        MarkdownElement::Code(c) => BuildStateA {
            ops: st.ops + code_ops(t, c),
            ignore_break: false,
            ..st
        },
        MarkdownElement::Table(tb) => BuildStateA {
            ops: st.ops + table_ops(t, tb),
            ignore_break: false,
            ..st
        },
        MarkdownElement::ThematicBreak => terminate_spec(
            t,
            BuildStateA { ignore_break: false, ..st },
        ),
        MarkdownElement::Comment(c) => match comment_of(c@) {
            Some(Comment::Pause) => pause_spec(t, BuildStateA { ignore_break: false, ..st }),
            Some(Comment::EndSlide) => terminate_spec(
                t,
                BuildStateA { ignore_break: false, ..st },
            ),
            None => BuildStateA { ignore_break: false, ..st },
        },
        MarkdownElement::BlockQuote(lines) => BuildStateA {
            ops: st.ops + quote_ops(t, lines@),
            ignore_break: false,
            ..st
        },
        MarkdownElement::Image(path) => BuildStateA {
            ops: st.ops + seq![OpV::ImageV(path@)],
            ignore_break: false,
            ..st
        },
    };
    BuildStateA { last_is_list: e is List, ..st1 }
}

/// One element's full effect: its emission, then the element line break
/// unless the element suppressed it.
pub open spec fn step(t: ThemeA, st: BuildStateA, e: MarkdownElement) -> BuildStateA {
    let s = step_core(t, st, e);
    if s.ignore_break {
        s
    } else {
        BuildStateA { ops: s.ops + seq![OpV::LineBreakV], ..s }
    }
}

/// The state after a sequence of elements.
pub open spec fn steps(t: ThemeA, st: BuildStateA, els: Seq<MarkdownElement>) -> BuildStateA
    decreases els.len(),
{
    if els.len() == 0 {
        st
    } else {
        steps(t, step(t, st, els[0]), els.skip(1))
    }
}

/// Processing one more element is one more step.
pub proof fn lemma_steps_push(
    t: ThemeA,
    st: BuildStateA,
    els: Seq<MarkdownElement>,
    x: MarkdownElement,
)
    ensures
        steps(t, st, els.push(x)) == step(t, steps(t, st, els), x),
    decreases els.len(),
{
    if els.len() == 0 {
        assert(els.push(x).skip(1) =~= Seq::<MarkdownElement>::empty());
        assert(els.push(x)[0] == x);
        assert(steps(t, step(t, st, x), Seq::<MarkdownElement>::empty()) == step(t, st, x));
        assert(steps(t, st, Seq::<MarkdownElement>::empty()) == st);
    } else {
        assert(els.push(x).skip(1) =~= els.skip(1).push(x));
        assert(els.push(x)[0] == els[0]);
        lemma_steps_push(t, step(t, st, els[0]), els.skip(1), x);
        assert(steps(t, step(t, st, els[0]), els.push(x).skip(1)) == steps(
            t,
            step(t, st, els[0]),
            els.skip(1).push(x),
        ));
    }
}

/// The state the build starts from: a fresh prelude, preceded — when the
/// front matter carried a title, subtitle or author — by the already
/// terminated intro slide.
pub open spec fn initial_state(t: ThemeA, intro: Option<MetaA>) -> BuildStateA {
    let fresh = BuildStateA {
        ops: prelude_abs(t),
        slides: Seq::<Seq<OpV>>::empty(),
        ignore_break: false,
        last_is_list: false,
    };
    match intro {
        None => fresh,
        Some(md) => if md.wants_intro() {
            terminate_spec(
                t,
                BuildStateA {
                    ops: prelude_abs(t) + intro_ops(t, md),
                    slides: Seq::<Seq<OpV>>::empty(),
                    ignore_break: false,
                    last_is_list: false,
                },
            )
        } else {
            fresh
        },
    }
}

/// The slides a document builds into, for a resolved theme and optional
/// front-matter metadata.
pub open spec fn build_model(
    t: ThemeA,
    intro: Option<MetaA>,
    els: Seq<MarkdownElement>,
) -> Seq<Seq<OpV>> {
    let fin = steps(t, initial_state(t, intro), els);
    if fin.ops.len() > 0 {
        terminate_spec(t, fin).slides
    } else {
        fin.slides
    }
}

/// Whether one element is within what the builder accepts: heading levels
/// run from 1 to 6, and no table row is wider than its header.
pub open spec fn element_wf(e: MarkdownElement) -> bool {
    match e {
        MarkdownElement::Heading { level, .. } => 1 <= level <= 6,
        MarkdownElement::Table(tb) => forall|i: int|
            0 <= i < tb.rows@.len() ==> tb.rows@[i].0@.len() <= tb.header.0@.len(),
        _ => true,
    }
}

/// Whether every element is within what the builder accepts.
pub open spec fn elements_wf(els: Seq<MarkdownElement>) -> bool {
    forall|i: int| 0 <= i < els.len() ==> element_wf(#[trigger] els[i])
}

/// Whether every image path an element refers to is registered.
pub open spec fn images_ok(res: &Resources, els: Seq<MarkdownElement>) -> bool {
    forall|i: int|
        0 <= i < els.len() ==> match #[trigger] els[i] {
            MarkdownElement::Image(path) => has_image(res.image_paths@, path@),
            _ => true,
        }
}

/// Builds a presentation: it consumes structural elements in order and
/// accumulates slides of render operations.
pub struct PresentationBuilder<'a> {
    pub slide_operations: Vec<RenderOperation>,
    pub slides: Vec<Slide>,
    pub highlighter: &'a CodeHighlighter,
    pub theme: PresentationTheme,
    pub resources: &'a Resources,
    pub ignore_element_line_break: bool,
    pub last_element_is_list: bool,
    pub footer_author: String,
}

impl<'a> PresentationBuilder<'a> {
    /// The build state this builder is in.
    pub open spec fn st(&self) -> BuildStateA {
        BuildStateA {
            ops: ops_abs(self.slide_operations@),
            slides: slides_abs(self.slides@),
            ignore_break: self.ignore_element_line_break,
            last_is_list: self.last_element_is_list,
        }
    }

    /// The parts of the builder that element processing never changes.
    pub open spec fn env_unchanged(&self, other: &Self) -> bool {
        self.theme == other.theme && self.footer_author == other.footer_author
            && self.highlighter == other.highlighter && self.resources == other.resources
    }

    /// Construct a builder over a default theme, a highlighter, and the
    /// pre-loaded resources.
    pub fn new(
        highlighter: &'a CodeHighlighter,
        default_theme: &'a PresentationTheme,
        resources: &'a Resources,
    ) -> (r: Self)
        ensures
            r.st() == (BuildStateA {
                ops: Seq::<OpV>::empty(),
                slides: Seq::<Seq<OpV>>::empty(),
                ignore_break: false,
                last_is_list: false,
            }),
            r.theme@ == default_theme@,
            r.footer_author@ == Seq::<char>::empty(),
            r.highlighter == highlighter,
            r.resources == resources,
    {
        let r = PresentationBuilder {
            slide_operations: Vec::new(),
            slides: Vec::new(),
            highlighter,
            theme: default_theme.clone(),
            resources,
            ignore_element_line_break: false,
            last_element_is_list: false,
            footer_author: String::new(),
        };
        proof {
            assert(ops_abs(r.slide_operations@) =~= Seq::<OpV>::empty());
            assert(slides_abs(r.slides@) =~= Seq::<Seq<OpV>>::empty());
        }
        r
    }

    /// Append one line break.
    fn push_line_break(&mut self)
        ensures
            final(self).st() == (BuildStateA {
                ops: old(self).st().ops + seq![OpV::LineBreakV],
                ..old(self).st()
            }),
            final(self).env_unchanged(old(self)),
    {
        self.slide_operations.push(RenderOperation::RenderLineBreak);
        proof {
            assert(ops_abs(self.slide_operations@) =~= ops_abs(old(self).slide_operations@) + seq![
                OpV::LineBreakV,
            ]);
            assert(final(self).st() =~~= (BuildStateA {
                ops: old(self).st().ops + seq![OpV::LineBreakV],
                ..old(self).st()
            }));
        }
    }

    /// Append the slide prelude: default colors, a cleared screen, and one
    /// line break.
    fn push_slide_prelude(&mut self)
        ensures
            final(self).st() == (BuildStateA {
                ops: old(self).st().ops + prelude_abs(old(self).theme@),
                ..old(self).st()
            }),
            final(self).env_unchanged(old(self)),
    {
        let colors = self.theme.default_style.colors;
        self.slide_operations.push(RenderOperation::SetColors(colors));
        self.slide_operations.push(RenderOperation::ClearScreen);
        self.push_line_break();
        proof {
            assert(final(self).st().ops =~~= old(self).st().ops + prelude_abs(old(self).theme@));
            assert(final(self).st() =~~= (BuildStateA {
                ops: old(self).st().ops + prelude_abs(old(self).theme@),
                ..old(self).st()
            }));
        }
    }

    /// Append one text line, giving inline-code chunks the theme's code
    /// colors; an empty text appends nothing.
    fn push_text(&mut self, text: Text, element_type: ElementType)
        ensures
            final(self).st() == (BuildStateA {
                ops: old(self).st().ops + text_line_ops(old(self).theme@, text@, element_type),
                ..old(self).st()
            }),
            final(self).env_unchanged(old(self)),
    {
        let ghost t = self.theme@;
        let ghost expected = text@.map_values(
            |c: ChunkV| if c.style.code {
                ChunkV {
                    text: c.text,
                    style: TextStyle {
                        bold: c.style.bold,
                        italics: c.style.italics,
                        code: c.style.code,
                        colors: t.code.colors,
                    },
                }
            } else {
                c
            },
        );
        let alignment = self.theme.alignment(element_type);
        let mut texts: Vec<WeightedText> = Vec::new();
        let mut i: usize = 0;
        while i < text.chunks.len()
            invariant
                i <= text.chunks@.len(),
                expected.len() == text.chunks@.len(),
                expected == text@.map_values(
                    |c: ChunkV| if c.style.code {
                        ChunkV {
                            text: c.text,
                            style: TextStyle {
                                bold: c.style.bold,
                                italics: c.style.italics,
                                code: c.style.code,
                                colors: t.code.colors,
                            },
                        }
                    } else {
                        c
                    },
                ),
                t == self.theme@,
                texts@.len() == i,
                forall|j: int| 0 <= j < i ==> texts@[j]@ == expected[j],
                self == old(self),
            decreases text.chunks@.len() - i,
        {
            let chunk = text.chunks[i].clone();
            let chunk = if chunk.style.is_code() {
                let style = chunk.style.colors(self.theme.code.colors);
                StyledText { text: chunk.text, style }
            } else {
                chunk
            };
            texts.push(WeightedText::new(chunk));
            i = i + 1;
        }
        if texts.len() > 0 {
            let line = WeightedLine::new(texts);
            proof {
                assert(line@ =~~= expected);
            }
            self.slide_operations.push(
                RenderOperation::RenderTextLine { line, alignment },
            );
            proof {
                assert(final(self).st().ops =~~= old(self).st().ops + text_line_ops(
                    t,
                    text@,
                    element_type,
                ));
                assert(final(self).st() =~~= (BuildStateA {
                    ops: old(self).st().ops + text_line_ops(t, text@, element_type),
                    ..old(self).st()
                }));
            }
        } else {
            proof {
                assert(text_line_ops(t, text@, element_type) =~= Seq::<OpV>::empty());
                assert(final(self).st().ops =~~= old(self).st().ops + text_line_ops(
                    t,
                    text@,
                    element_type,
                ));
                assert(final(self).st() =~~= (BuildStateA {
                    ops: old(self).st().ops + text_line_ops(t, text@, element_type),
                    ..old(self).st()
                }));
            }
        }
    }

    /// Append a heading: the theme prefix for its level, then the bold,
    /// colored text, then a line break.
    fn push_heading(&mut self, level: u8, text: Text)
        requires
            1 <= level <= 6,
        ensures
            final(self).st() == (BuildStateA {
                ops: old(self).st().ops + heading_ops(old(self).theme@, level, text@),
                ..old(self).st()
            }),
            final(self).env_unchanged(old(self)),
    {
        let ghost t = self.theme@;
        let mut text = text;
        let ghost text0 = text@;
        let (element_type, prefix, colors) = if level == 1 {
            (ElementType::Heading1, clone_prefix(&self.theme.headings.h1.prefix), self.theme.headings.h1.colors)
        } else if level == 2 {
            (ElementType::Heading2, clone_prefix(&self.theme.headings.h2.prefix), self.theme.headings.h2.colors)
        } else if level == 3 {
            (ElementType::Heading3, clone_prefix(&self.theme.headings.h3.prefix), self.theme.headings.h3.colors)
        } else if level == 4 {
            (ElementType::Heading4, clone_prefix(&self.theme.headings.h4.prefix), self.theme.headings.h4.colors)
        } else if level == 5 {
            (ElementType::Heading5, clone_prefix(&self.theme.headings.h5.prefix), self.theme.headings.h5.colors)
        } else {
            (ElementType::Heading6, clone_prefix(&self.theme.headings.h6.prefix), self.theme.headings.h6.colors)
        };
        let ghost style = heading_style_for(t, level);
        proof {
            assert(element_type == element_type_for(level));
            assert(crate::theme::opt_str_abs(prefix) == style.prefix);
            assert(colors == style.colors);
        }
        if let Some(p) = prefix {
            let mut p = p;
            crate::strutil::push_char(&mut p, ' ');
            text.chunks.insert(0, StyledText::plain(p));
            proof {
                assert(text@ =~~= seq![
                    ChunkV { text: style.prefix.unwrap().push(' '), style: TextStyle::plain_spec() },
                ] + text0);
            }
        }
        let ghost base = text@;
        text.apply_style(&TextStyle::plain().bold().colors(colors));
        proof {
            assert(text@ == applied_style(base, bold_with(style.colors)));
        }
        self.push_text(text, element_type);
        self.push_line_break();
        proof {
            assert(final(self).st().ops =~~= old(self).st().ops + heading_ops(t, level, text0));
            assert(final(self).st() =~~= (BuildStateA {
                ops: old(self).st().ops + heading_ops(t, level, text0),
                ..old(self).st()
            }));
        }
    }

    /// Append a slide title: top padding, the bold title line and a break,
    /// bottom padding, the optional separator, a final break; the element
    /// line break is suppressed.
    fn push_slide_title(&mut self, text: Text)
        ensures
            final(self).st() == (BuildStateA {
                ops: old(self).st().ops + slide_title_ops(old(self).theme@, text@),
                ignore_break: true,
                ..old(self).st()
            }),
            final(self).env_unchanged(old(self)),
    {
        let ghost t = self.theme@;
        let ghost text0 = text@;
        let mut text = text;
        let style = self.theme.slide_title;
        text.apply_style(&TextStyle::plain().bold().colors(style.colors));
        let pt: u8 = match style.padding_top {
            Some(n) => n,
            None => 0,
        };
        let pb: u8 = match style.padding_bottom {
            Some(n) => n,
            None => 0,
        };
        let sep: bool = match style.separator {
            Some(b) => b,
            None => false,
        };
        let ghost base = old(self).st().ops;
        let mut k: u8 = 0;
        proof {
            assert(base + line_breaks(0) =~= base);
        }
        while k < pt
            invariant
                k <= pt,
                self.st() == (BuildStateA {
                    ops: base + line_breaks(k as nat),
                    ..old(self).st()
                }),
                self.env_unchanged(old(self)),
                t == self.theme@,
                base == old(self).st().ops,
            decreases pt - k,
        {
            self.push_line_break();
            proof {
                assert(base + line_breaks((k + 1) as nat) =~= (base + line_breaks(k as nat)) + seq![
                    OpV::LineBreakV,
                ]);
            }
            k = k + 1;
        }
        self.push_text(text, ElementType::SlideTitle);
        self.push_line_break();
        let ghost mid = self.st().ops;
        let mut k2: u8 = 0;
        proof {
            assert(mid + line_breaks(0) =~= mid);
        }
        while k2 < pb
            invariant
                k2 <= pb,
                self.st() == (BuildStateA {
                    ops: mid + line_breaks(k2 as nat),
                    ..old(self).st()
                }),
                self.env_unchanged(old(self)),
                t == self.theme@,
            decreases pb - k2,
        {
            self.push_line_break();
            proof {
                assert(mid + line_breaks((k2 + 1) as nat) =~= (mid + line_breaks(k2 as nat))
                    + seq![OpV::LineBreakV]);
            }
            k2 = k2 + 1;
        }
        if sep {
            self.slide_operations.push(RenderOperation::RenderSeparator);
            proof {
                assert(ops_abs(self.slide_operations@) =~= mid + line_breaks(pb as nat) + seq![
                    OpV::SeparatorV,
                ]);
            }
        }
        self.push_line_break();
        self.ignore_element_line_break = true;
        proof {
            assert(final(self).st().ops =~~= base + slide_title_ops(t, text0));
            assert(final(self).st() =~~= (BuildStateA {
                ops: base + slide_title_ops(t, text0),
                ignore_break: true,
                ..old(self).st()
            }));
        }
    }

    /// Append a paragraph: a text line and a break per text run.
    fn push_paragraph(&mut self, elements: Vec<ParagraphElement>) -> (r: Result<(), BuildError>)
        ensures
            r is Ok,
            final(self).st() == (BuildStateA {
                ops: old(self).st().ops + paragraph_ops(old(self).theme@, elements@),
                ..old(self).st()
            }),
            final(self).env_unchanged(old(self)),
    {
        let ghost t = self.theme@;
        let ghost els0 = elements@;
        let ghost base = old(self).st().ops;
        let mut elements = elements;
        let ghost k: int = 0;
        proof {
            assert(base + paragraph_ops(t, els0.take(0)) =~= base);
            assert(els0.take(0) =~= Seq::<ParagraphElement>::empty());
            assert(paragraph_ops(t, Seq::<ParagraphElement>::empty()) =~= Seq::<OpV>::empty());
            assert(elements@ =~= els0.skip(0));
        }
        while elements.len() > 0
            invariant
                0 <= k <= els0.len(),
                elements@ == els0.skip(k),
                self.st() == (BuildStateA {
                    ops: base + paragraph_ops(t, els0.take(k)),
                    ..old(self).st()
                }),
                self.env_unchanged(old(self)),
                t == self.theme@,
            decreases elements@.len(),
        {
            let element = elements.remove(0);
            proof {
                assert(element == els0[k]);
                assert(elements@ =~= els0.skip(k + 1));
            }
            match element {
                ParagraphElement::Text(text) => {
                    let ghost tv = text@;
                    self.push_text(text, ElementType::Paragraph);
                    self.push_line_break();
                },
                ParagraphElement::LineBreak => {},
            }
            proof {
                lemma_paragraph_ops_push(t, els0.take(k), els0[k]);
                assert(els0.take(k + 1) =~= els0.take(k).push(els0[k]));
                assert(self.st().ops =~~= base + paragraph_ops(t, els0.take(k + 1)));
                assert(self.st() =~~= (BuildStateA {
                    ops: base + paragraph_ops(t, els0.take(k + 1)),
                    ..old(self).st()
                }));
            }
            proof {
                k = k + 1;
            }
        }
        proof {
            assert(els0.take(els0.len() as int) =~= els0);
        }
        Ok(())
    }

    /// Append one list item: indentation, marker, a space, then the item's
    /// text and a break.
    fn push_list_item(&mut self, item: ListItem)
        ensures
            final(self).st() == (BuildStateA {
                ops: old(self).st().ops + list_item_ops(old(self).theme@, item),
                ..old(self).st()
            }),
            final(self).env_unchanged(old(self)),
    {
        let ghost t = self.theme@;
        let padding_length = (item.depth as usize + 1) * 2;
        let mut prefix = spaces(padding_length);
        match item.item_type {
            ListItemType::Unordered => {
                let delimiter = if item.depth == 0 {
                    '\u{2022}'
                } else if item.depth == 1 {
                    '\u{25e6}'
                } else {
                    '\u{25aa}'
                };
                crate::strutil::push_char(&mut prefix, delimiter);
            },
            ListItemType::OrderedParens(number) => {
                let ns = u64_to_string(number as u64);
                prefix.append(ns.as_str());
                crate::strutil::push_char(&mut prefix, ')');
                crate::strutil::push_char(&mut prefix, ' ');
            },
            ListItemType::OrderedPeriod(number) => {
                let ns = u64_to_string(number as u64);
                prefix.append(ns.as_str());
                crate::strutil::push_char(&mut prefix, '.');
                crate::strutil::push_char(&mut prefix, ' ');
            },
        }
        crate::strutil::push_char(&mut prefix, ' ');
        proof {
            assert(prefix@ =~= list_item_prefix(item));
        }
        let mut text = item.contents;
        let ghost text0 = text@;
        text.chunks.insert(0, StyledText::plain(prefix));
        proof {
            assert(text@ =~~= seq![
                ChunkV { text: list_item_prefix(item), style: TextStyle::plain_spec() },
            ] + text0);
        }
        self.push_text(text, ElementType::List);
        self.push_line_break();
        proof {
            assert(final(self).st().ops =~~= old(self).st().ops + list_item_ops(t, item));
            assert(final(self).st() =~~= (BuildStateA {
                ops: old(self).st().ops + list_item_ops(t, item),
                ..old(self).st()
            }));
        }
    }

    /// Append a whole list, item by item.
    fn push_list(&mut self, items: Vec<ListItem>)
        ensures
            final(self).st() == (BuildStateA {
                ops: old(self).st().ops + list_ops(old(self).theme@, items@),
                ..old(self).st()
            }),
            final(self).env_unchanged(old(self)),
    {
        let ghost t = self.theme@;
        let ghost items0 = items@;
        let ghost base = old(self).st().ops;
        let mut items = items;
        let ghost k: int = 0;
        proof {
            assert(base + list_ops(t, items0.take(0)) =~= base);
            assert(items0.take(0) =~= Seq::<ListItem>::empty());
            assert(list_ops(t, Seq::<ListItem>::empty()) =~= Seq::<OpV>::empty());
            assert(items@ =~= items0.skip(0));
        }
        while items.len() > 0
            invariant
                0 <= k <= items0.len(),
                items@ == items0.skip(k),
                self.st() == (BuildStateA {
                    ops: base + list_ops(t, items0.take(k)),
                    ..old(self).st()
                }),
                self.env_unchanged(old(self)),
                t == self.theme@,
            decreases items@.len(),
        {
            let item = items.remove(0);
            proof {
                assert(item == items0[k]);
                assert(items@ =~= items0.skip(k + 1));
            }
            self.push_list_item(item);
            proof {
                lemma_list_ops_push(t, items0.take(k), items0[k]);
                assert(items0.take(k + 1) =~= items0.take(k).push(items0[k]));
                assert(self.st() =~~= (BuildStateA {
                    ops: base + list_ops(t, items0.take(k + 1)),
                    ..old(self).st()
                }));
                k = k + 1;
            }
        }
        proof {
            assert(items0.take(items0.len() as int) =~= items0);
        }
    }

    /// Resolve and append an image, or fail with the load error.
    fn push_image(&mut self, path: String) -> (r: Result<(), BuildError>)
        ensures
            r is Ok <==> has_image(old(self).resources.image_paths@, path@),
            r is Ok ==> final(self).st() == (BuildStateA {
                ops: old(self).st().ops + seq![OpV::ImageV(path@)],
                ..old(self).st()
            }) && final(self).env_unchanged(old(self)),
            r matches Err(e) ==> (e matches BuildError::LoadImage(le) && le@ == path@
                && *final(self) == *old(self)),
    {
        match self.resources.image(path.as_str()) {
            Ok(image) => {
                self.slide_operations.push(RenderOperation::RenderImage(image));
                proof {
                    assert(final(self).st().ops =~~= old(self).st().ops + seq![
                        OpV::ImageV(path@),
                    ]);
                    assert(final(self).st() =~~= (BuildStateA {
                        ops: old(self).st().ops + seq![OpV::ImageV(path@)],
                        ..old(self).st()
                    }));
                }
                Ok(())
            },
            Err(e) => Err(BuildError::LoadImage(e)),
        }
    }

    /// Append the deferred footer operation for the slide being closed.
    fn push_footer(&mut self)
        ensures
            final(self).st() == (BuildStateA {
                ops: old(self).st().ops + seq![
                    footer_op_abs(old(self).theme@, old(self).slides@.len() as nat),
                ],
                ..old(self).st()
            }),
            final(self).env_unchanged(old(self)),
    {
        let style = match &self.theme.footer {
            Some(f) => f.clone(),
            None => crate::theme::FooterStyle::Empty,
        };
        let generator = FooterGenerator { current_slide: self.slides.len(), style };
        self.slide_operations.push(RenderOperation::RenderDynamic(generator));
        proof {
            assert(final(self).st().ops =~~= old(self).st().ops + seq![
                footer_op_abs(old(self).theme@, old(self).slides@.len() as nat),
            ]);
            assert(final(self).st() =~~= (BuildStateA {
                ops: old(self).st().ops + seq![
                    footer_op_abs(old(self).theme@, old(self).slides@.len() as nat),
                ],
                ..old(self).st()
            }));
        }
    }

    /// Close the current slide: append its footer, store it, and start the
    /// next slide with a fresh prelude.
    fn terminate_slide(&mut self)
        ensures
            final(self).st() == terminate_spec(old(self).theme@, old(self).st()),
            final(self).env_unchanged(old(self)),
    {
        self.push_footer();
        let mut elements: Vec<RenderOperation> = Vec::new();
        core::mem::swap(&mut self.slide_operations, &mut elements);
        self.slides.push(Slide { render_operations: elements });
        proof {
            assert(ops_abs(self.slide_operations@) =~= Seq::<OpV>::empty());
            assert(slides_abs(self.slides@) =~~= slides_abs(old(self).slides@).push(
                old(self).st().ops + seq![
                    footer_op_abs(old(self).theme@, old(self).slides@.len() as nat),
                ],
            ));
        }
        self.push_slide_prelude();
        self.ignore_element_line_break = true;
        proof {
            assert(final(self).st().ops =~~= prelude_abs(old(self).theme@));
            assert(final(self).st() =~~= terminate_spec(old(self).theme@, old(self).st()));
        }
    }

    /// Incremental reveal: close the slide but carry its operations into
    /// the next one, dropping a trailing break after a list.
    fn process_pause(&mut self)
        ensures
            final(self).st() == pause_spec(old(self).theme@, old(self).st()),
            final(self).env_unchanged(old(self)),
    {
        if self.last_element_is_list && self.slide_operations.len() > 0 {
            let n = self.slide_operations.len();
            let is_break = matches!(&self.slide_operations[n - 1], RenderOperation::RenderLineBreak);
            if is_break {
                self.slide_operations.pop();
                proof {
                    assert(ops_abs(self.slide_operations@) =~= ops_abs(
                        old(self).slide_operations@,
                    ).drop_last());
                }
            }
        }
        let ghost base = ops_abs(self.slide_operations@);
        let next_operations = clone_ops(&self.slide_operations);
        self.terminate_slide();
        self.slide_operations = next_operations;
        proof {
            assert(final(self).st() =~~= pause_spec(old(self).theme@, old(self).st()));
        }
    }

    /// Handle a directive comment: `pause`, `end_slide`, or — for anything
    /// unrecognized — nothing at all.
    fn process_comment(&mut self, comment: String)
        ensures
            comment_of(comment@) == Some(Comment::Pause) ==> final(self).st() == pause_spec(
                old(self).theme@,
                old(self).st(),
            ),
            comment_of(comment@) == Some(Comment::EndSlide) ==> final(self).st()
                == terminate_spec(old(self).theme@, old(self).st()),
            comment_of(comment@) is None ==> *final(self) == *old(self),
            final(self).env_unchanged(old(self)),
    {
        match parse_comment(comment.as_str()) {
            Some(Comment::Pause) => self.process_pause(),
            Some(Comment::EndSlide) => self.terminate_slide(),
            None => {},
        }
    }
}

/// The base theme the front matter picks: the named built-in theme, the
/// theme registered under the configured path, or the builder's default —
/// and nothing when both a name and a path are given, the name is unknown,
/// or the path is unregistered.
pub open spec fn resolved_base_theme(tm: ThemeMetaA, base: ThemeA, res: &Resources) -> Option<
    ThemeA,
> {
    if tm.name is Some && tm.path is Some {
        None
    } else {
        match tm.name {
            Some(n) => if n == "dark"@ {
                Some(PresentationTheme::default_theme_abs())
            } else if n == "light"@ {
                Some(PresentationTheme::light_theme_abs())
            } else {
                None
            },
            None => match tm.path {
                Some(p) => theme_lookup(res.themes@, p),
                None => Some(base),
            },
        }
    }
}

/// The effective theme: the resolved base with the inline overrides merged
/// on top.
pub open spec fn effective_theme_of(tm: ThemeMetaA, base: ThemeA, res: &Resources) -> Option<
    ThemeA,
> {
    match resolved_base_theme(tm, base, res) {
        None => None,
        Some(b) => Some(
            match tm.overrides {
                Some(o) => merged_theme(b, o),
                None => b,
            },
        ),
    }
}

/// Which error a failed theme resolution reports: a name-and-path conflict
/// or an unknown name is a metadata error (the conflict with its exact
/// message), an unregistered path is a theme error naming the path.
pub open spec fn fm_error_kind(e: BuildError, tm: ThemeMetaA) -> bool {
    if tm.name is Some && tm.path is Some {
        e matches BuildError::InvalidMetadata(m) && m@
            == "cannot have both theme path and theme name"@
    } else if tm.name is Some {
        e is InvalidMetadata
    } else {
        tm.path matches Some(p) && e matches BuildError::InvalidTheme(le) && le@ == p
    }
}

/// What a build must do for a document whose first element is front matter
/// holding `text`: fail with the pinned error kind when the text is
/// malformed or its theme selection cannot be resolved; otherwise behave
/// exactly like the model under the resolved theme and the parsed
/// configuration, failing only for an unregistered image.
pub open spec fn fm_build_outcome(
    r: Result<Presentation, BuildError>,
    text: Seq<char>,
    base: ThemeA,
    res: &Resources,
    els: Seq<MarkdownElement>,
) -> bool {
    match yaml_doc_of(text) {
        None => r matches Err(BuildError::InvalidMetadata(_)),
        Some(doc) => {
            let m = doc_meta(doc);
            match effective_theme_of(m.theme, base, res) {
                None => r matches Err(e) && fm_error_kind(e, m.theme),
                Some(te) => {
                    &&& (images_ok(res, els) <==> r is Ok)
                    &&& (r matches Ok(p) ==> slides_abs(p.slides@) == build_model(
                        te,
                        Some(m),
                        els,
                    ) && p.footer_context@.author == author_of(m))
                    &&& (r matches Err(e) ==> e is LoadImage)
                },
            }
        },
    }
}

/// The footer author the front matter sets: the author, or empty.
pub open spec fn author_of(md: MetaA) -> Seq<char> {
    match md.author {
        Some(a) => a,
        None => Seq::<char>::empty(),
    }
}

/// The build state after the front matter: unchanged, unless the metadata
/// asks for an intro slide, which is emitted and terminated at once.
pub open spec fn fm_state(te: ThemeA, md: MetaA, st: BuildStateA) -> BuildStateA {
    if md.wants_intro() {
        terminate_spec(
            te,
            BuildStateA { ops: st.ops + prelude_abs(te) + intro_ops(te, md), ..st },
        )
    } else {
        st
    }
}

/// A step keeps at least one operation or one slide around.
pub proof fn lemma_step_keeps_content(t: ThemeA, st: BuildStateA, e: MarkdownElement)
    requires
        st.ops.len() > 0 || st.slides.len() > 0,
    ensures
        step(t, st, e).ops.len() > 0 || step(t, st, e).slides.len() > 0,
{
}

impl<'a> PresentationBuilder<'a> {
    /// Append a block quote: quote colors on, one prefixed preformatted
    /// line per quoted line, default colors back on.
    fn push_block_quote(&mut self, lines: Vec<String>)
        ensures
            final(self).st() == (BuildStateA {
                ops: old(self).st().ops + quote_ops(old(self).theme@, lines@),
                ..old(self).st()
            }),
            final(self).env_unchanged(old(self)),
    {
        let ghost t = self.theme@;
        let prefix: String = match &self.theme.block_quote.prefix {
            Some(p) => p.clone(),
            None => String::new(),
        };
        let ghost pfx = prefix@;
        proof {
            assert(pfx == match t.block_quote.prefix {
                Some(p) => p,
                None => Seq::<char>::empty(),
            });
        }
        let mut block_length: usize = 0;
        let mut i: usize = 0;
        proof {
            assert(lines@.take(0) =~= Seq::<String>::empty());
        }
        while i < lines.len()
            invariant
                i <= lines@.len(),
                pfx == prefix@,
                block_length == quote_block_len(lines@.take(i as int), pfx),
                self == old(self),
            decreases lines@.len() - i,
        {
            let mut pl = prefix.clone();
            pl.append(lines[i].as_str());
            let w = measure_str(pl.as_str());
            proof {
                assert(pl@ == pfx + lines@[i as int]@);
                assert(w == display_width(pfx + lines@[i as int]@));
                lemma_quote_block_len_push(lines@.take(i as int), pfx, lines@[i as int]);
                assert(lines@.take(i + 1) =~= lines@.take(i as int).push(lines@[i as int]));
            }
            if w > block_length {
                block_length = w;
            }
            proof {
                assert(block_length == quote_block_len(lines@.take(i + 1), pfx));
            }
            i = i + 1;
        }
        proof {
            assert(lines@.take(lines@.len() as int) =~= lines@);
        }
        let ghost block = block_length as nat;
        self.slide_operations.push(RenderOperation::SetColors(self.theme.block_quote.colors));
        let ghost base2 = ops_abs(self.slide_operations@);
        let alignment = self.theme.alignment(ElementType::BlockQuote);
        let mut j: usize = 0;
        proof {
            assert(lines@.take(0) =~= Seq::<String>::empty());
            assert(base2 + quote_lines_ops(t, pfx, block, lines@.take(0)) =~= base2);
        }
        while j < lines.len()
            invariant
                j <= lines@.len(),
                block == quote_block_len(lines@, pfx),
                alignment == PresentationTheme::alignment_spec(t, ElementType::BlockQuote),
                block == block_length as nat,
                base2 == old(self).st().ops + seq![OpV::SetColorsV(t.block_quote.colors)],
                pfx == (match t.block_quote.prefix {
                    Some(p) => p,
                    None => Seq::<char>::empty(),
                }),
                ops_abs(self.slide_operations@) == base2 + quote_lines_ops(
                    t,
                    pfx,
                    block,
                    lines@.take(j as int),
                ),
                slides_abs(self.slides@) == slides_abs(old(self).slides@),
                self.ignore_element_line_break == old(self).ignore_element_line_break,
                self.last_element_is_list == old(self).last_element_is_list,
                self.env_unchanged(old(self)),
                t == self.theme@,
                pfx == prefix@,
            decreases lines@.len() - j,
        {
            let mut line = prefix.clone();
            line.append(lines[j].as_str());
            let line_length = measure_str(line.as_str());
            proof {
                assert(line@ == pfx + lines@[j as int]@);
            }
            let ghost prev = ops_abs(self.slide_operations@);
            let ghost opv = OpV::PreformattedLineV {
                text: pfx + lines@[j as int]@,
                unformatted_length: display_width(pfx + lines@[j as int]@),
                block_length: block,
                alignment: PresentationTheme::alignment_spec(t, ElementType::BlockQuote),
            };
            let op = RenderOperation::RenderPreformattedLine {
                text: line,
                unformatted_length: line_length,
                block_length,
                alignment,
            };
            proof {
                assert(op@ == opv);
            }
            self.slide_operations.push(op);
            proof {
                assert(ops_abs(self.slide_operations@) =~~= prev.push(opv));
            }
            self.push_line_break();
            proof {
                assert(ops_abs(self.slide_operations@) =~~= prev.push(opv).push(OpV::LineBreakV));
                lemma_quote_lines_ops_push(t, pfx, block, lines@.take(j as int), lines@[j as int]);
                assert(lines@.take(j + 1) =~= lines@.take(j as int).push(lines@[j as int]));
                assert(quote_lines_ops(t, pfx, block, lines@.take(j + 1)) == quote_lines_ops(
                    t,
                    pfx,
                    block,
                    lines@.take(j as int),
                ) + quote_line_ops(t, pfx, block, lines@[j as int]));
                assert(quote_line_ops(t, pfx, block, lines@[j as int]) =~~= seq![
                    opv,
                    OpV::LineBreakV,
                ]);
                assert(ops_abs(self.slide_operations@) =~~= base2 + quote_lines_ops(
                    t,
                    pfx,
                    block,
                    lines@.take(j + 1),
                ));
            }
            j = j + 1;
        }
        self.slide_operations.push(RenderOperation::SetColors(self.theme.default_style.colors));
        proof {
            assert(lines@.take(lines@.len() as int) =~= lines@);
            assert(ops_abs(self.slide_operations@) =~~= (old(self).st().ops + seq![
                OpV::SetColorsV(t.block_quote.colors),
            ]) + quote_lines_ops(t, pfx, block, lines@) + seq![
                OpV::SetColorsV(t.default_style.colors),
            ]);
            assert(quote_ops(t, lines@) =~~= seq![OpV::SetColorsV(t.block_quote.colors)]
                + quote_lines_ops(t, pfx, block, lines@) + seq![
                OpV::SetColorsV(t.default_style.colors),
            ]);
            assert(final(self).st().ops =~~= old(self).st().ops + quote_ops(t, lines@));
            assert(final(self).st() =~~= (BuildStateA {
                ops: old(self).st().ops + quote_ops(t, lines@),
                ..old(self).st()
            }));
        }
    }

    /// Append a code block: pad it per the theme, highlight it, and emit
    /// one preformatted line per formatted line, all sharing the block
    /// width.
    fn push_code(&mut self, code: Code)
        ensures
            final(self).st() == (BuildStateA {
                ops: old(self).st().ops + code_ops(old(self).theme@, code),
                ..old(self).st()
            }),
            final(self).env_unchanged(old(self)),
    {
        let ghost t = self.theme@;
        let ghost code0 = code;
        let Code { contents, language } = code;
        let hp: u8 = match self.theme.code.padding_horizontal {
            Some(n) => n,
            None => 0,
        };
        let vp: u8 = match self.theme.code.padding_vertical {
            Some(n) => n,
            None => 0,
        };
        let mut padded = String::new();
        if hp == 0 && vp == 0 {
            padded = contents;
        } else {
            if vp > 0 {
                crate::strutil::push_char(&mut padded, '\n');
            }
            let ghost pre = padded@;
            if hp > 0 {
                let pad = spaces(hp as usize);
                let lines = crate::strutil::split_lines(contents.as_str());
                let ghost lspec = lines_of(contents@);
                let mut i: usize = 0;
                proof {
                    assert(lspec.take(0) =~= Seq::<Seq<char>>::empty());
                    assert(pre + flat_padded_lines(lspec.take(0), hp as nat) =~= pre);
                }
                while i < lines.len()
                    invariant
                        i <= lines@.len(),
                        crate::strutil::strs_abs(lines@) == lspec,
                        pad@ == Seq::new(hp as nat, |x: int| ' '),
                        padded@ == pre + flat_padded_lines(lspec.take(i as int), hp as nat),
                        self == old(self),
                    decreases lines@.len() - i,
                {
                    padded.append(pad.as_str());
                    padded.append(lines[i].as_str());
                    crate::strutil::push_char(&mut padded, '\n');
                    proof {
                        lemma_flat_padded_lines_push(lspec.take(i as int), hp as nat, lspec[i as int]);
                        assert(lspec.take(i + 1) =~= lspec.take(i as int).push(lspec[i as int]));
                        assert(padded@ =~= pre + flat_padded_lines(lspec.take(i + 1), hp as nat));
                    }
                    i = i + 1;
                }
                proof {
                    assert(lspec.take(lspec.len() as int) =~= lspec);
                }
            } else {
                padded.append(contents.as_str());
            }
            if vp > 0 {
                crate::strutil::push_char(&mut padded, '\n');
            }
            proof {
                assert(padded@ =~= padded_code(contents@, hp as nat, vp as nat));
            }
        }
        proof {
            assert(padded@ == padded_code(contents@, hp as nat, vp as nat));
        }
        let ghost plspec = lines_of(padded@);
        let plines = crate::strutil::split_lines(padded.as_str());
        let mut maxw: usize = 0;
        let mut i: usize = 0;
        proof {
            assert(plspec.take(0) =~= Seq::<Seq<char>>::empty());
        }
        while i < plines.len()
            invariant
                i <= plines@.len(),
                crate::strutil::strs_abs(plines@) == plspec,
                maxw == max_line_width(plspec.take(i as int)),
                self == old(self),
            decreases plines@.len() - i,
        {
            let w = measure_str(plines[i].as_str());
            proof {
                lemma_max_line_width_push(plspec.take(i as int), plspec[i as int]);
                assert(plspec.take(i + 1) =~= plspec.take(i as int).push(plspec[i as int]));
            }
            if w > maxw {
                maxw = w;
            }
            i = i + 1;
        }
        proof {
            assert(plspec.take(plspec.len() as int) =~= plspec);
        }
        let hpu: usize = hp as usize;
        let block_length: usize = if maxw > usize::MAX - hpu {
            usize::MAX
        } else {
            maxw + hpu
        };
        proof {
            assert(block_length as nat == sat_cap(max_line_width(plspec) + (hp as nat)));
        }
        let highlighted = self.highlighter.highlight(padded.as_str(), &language);
        let alignment = self.theme.alignment(ElementType::Code);
        let ghost base = ops_abs(self.slide_operations@);
        let ghost block = block_length as nat;
        let mut j: usize = 0;
        proof {
            assert(plspec.take(0) =~= Seq::<Seq<char>>::empty());
            assert(base + code_line_ops(t, plspec.take(0), block) =~= base);
        }
        while j < highlighted.len()
            invariant
                j <= highlighted@.len(),
                highlighted@.len() == plspec.len(),
                forall|x: int| 0 <= x < plspec.len() ==> highlighted@[x].formatted@ == plspec[x],
                forall|x: int| 0 <= x < plspec.len() ==> highlighted@[x].original@ == plspec[x],
                alignment == PresentationTheme::alignment_spec(t, ElementType::Code),
                block == block_length as nat,
                ops_abs(self.slide_operations@) == base + code_line_ops(
                    t,
                    plspec.take(j as int),
                    block,
                ),
                slides_abs(self.slides@) == slides_abs(old(self).slides@),
                self.ignore_element_line_break == old(self).ignore_element_line_break,
                self.last_element_is_list == old(self).last_element_is_list,
                self.env_unchanged(old(self)),
                t == self.theme@,
            decreases highlighted@.len() - j,
        {
            let formatted = highlighted[j].formatted.clone();
            let original = highlighted[j].original.clone();
            let trimmed = trim_end(formatted.as_str());
            let formatted_w = measure_str(formatted.as_str());
            let trimmed_w = measure_str(trimmed.as_str());
            let original_w = measure_str(original.as_str());
            proof {
                assert(highlighted@[j as int].formatted@ == plspec[j as int]);
                assert(highlighted@[j as int].original@ == plspec[j as int]);
                assert(formatted@ == plspec[j as int]);
                assert(original@ == plspec[j as int]);
                lemma_trim_end_is_prefix(formatted@);
                crate::width::lemma_display_width_prefix(
                    formatted@,
                    trim_end_spec(formatted@).len() as int,
                );
                assert(trimmed@ == trim_end_spec(formatted@));
                assert(trimmed_w <= formatted_w);
                assert(original_w == formatted_w);
            }
            let delta = formatted_w - trimmed_w;
            let original_length = original_w - delta;
            let ghost prev = ops_abs(self.slide_operations@);
            let ghost opv = OpV::PreformattedLineV {
                text: trim_end_spec(plspec[j as int]),
                unformatted_length: display_width(trim_end_spec(plspec[j as int])),
                block_length: block,
                alignment: PresentationTheme::alignment_spec(t, ElementType::Code),
            };
            let op = RenderOperation::RenderPreformattedLine {
                text: trimmed,
                unformatted_length: original_length,
                block_length,
                alignment,
            };
            proof {
                assert(op@ == opv);
            }
            self.slide_operations.push(op);
            proof {
                assert(ops_abs(self.slide_operations@) =~~= prev.push(opv));
            }
            self.push_line_break();
            proof {
                assert(ops_abs(self.slide_operations@) =~~= prev.push(opv).push(OpV::LineBreakV));
                lemma_code_line_ops_push(t, plspec.take(j as int), block, plspec[j as int]);
                assert(plspec.take(j + 1) =~= plspec.take(j as int).push(plspec[j as int]));
                assert(code_line_ops(t, plspec.take(j + 1), block) == code_line_ops(
                    t,
                    plspec.take(j as int),
                    block,
                ) + code_one_line_ops(t, plspec[j as int], block));
                assert(code_one_line_ops(t, plspec[j as int], block) =~~= seq![
                    opv,
                    OpV::LineBreakV,
                ]);
                assert(ops_abs(self.slide_operations@) =~~= base + code_line_ops(
                    t,
                    plspec.take(j + 1),
                    block,
                ));
            }
            j = j + 1;
        }
        proof {
            assert(plspec.take(plspec.len() as int) =~= plspec);
            assert(final(self).st().ops =~~= old(self).st().ops + code_ops(t, code0));
            assert(final(self).st() =~~= (BuildStateA {
                ops: old(self).st().ops + code_ops(t, code0),
                ..old(self).st()
            }));
        }
    }
}

/// The widths as mathematical values.
pub open spec fn widths_nat(v: Seq<usize>) -> Seq<nat> {
    v.map_values(|w: usize| w as nat)
}

impl<'a> PresentationBuilder<'a> {
    /// Flatten one table row against the column widths: cells separated by
    /// `" │ "`, each right-padded with spaces up to its column width.
    fn prepare_table_row(row: TableRow, widths: &Vec<usize>) -> (r: Text)
        requires
            row.0@.len() <= widths@.len(),
        ensures
            r@ == prepared_row_chunks(row, widths_nat(widths@)),
    {
        let ghost w = widths_nat(widths@);
        let ghost cells0 = row.0@;
        let TableRow(cells) = row;
        let mut cells = cells;
        let mut out = Text::empty();
        let wn = widths.len();
        let mut j: usize = 0;
        proof {
            assert(cells@ =~= cells0.skip(0));
            assert(chunks_abs(out.chunks@) =~= Seq::<ChunkV>::empty());
            assert(Seq::<ChunkV>::empty() + row_chunks_from(cells0, w, 0) =~= row_chunks_from(
                cells0,
                w,
                0,
            ));
        }
        while cells.len() > 0
            invariant
                j <= cells0.len(),
                cells@ == cells0.skip(j as int),
                cells0.len() <= w.len(),
                wn == widths@.len(),
                w == widths_nat(widths@),
                chunks_abs(out.chunks@) + row_chunks_from(cells0.skip(j as int), w, j as int)
                    == row_chunks_from(cells0, w, 0),
            decreases cells@.len(),
        {
            proof {
                assert(cells0.skip(j as int)[0] == cells0[j as int]);
                assert(cells0.skip(j as int).skip(1) =~= cells0.skip(j + 1));
            }
            let ghost out_pre = chunks_abs(out.chunks@);
            if j > 0 {
                let mut sep = String::new();
                crate::strutil::push_char(&mut sep, ' ');
                crate::strutil::push_char(&mut sep, '\u{2502}');
                crate::strutil::push_char(&mut sep, ' ');
                proof {
                    assert(sep@ =~= seq![' ', '\u{2502}', ' ']);
                }
                out.chunks.push(StyledText::plain(sep));
                proof {
                    assert(chunks_abs(out.chunks@) =~~= out_pre + seq![
                        ChunkV { text: seq![' ', '\u{2502}', ' '], style: TextStyle::plain_spec() },
                    ]);
                }
            }
            let cell = cells.remove(0);
            let text_length = cell.width();
            let ghost cellv = cell@;
            let mut cc = cell.chunks;
            let ghost out_mid = chunks_abs(out.chunks@);
            let ghost ccs0 = chunks_abs(cc@);
            proof {
                assert(cellv =~= ccs0);
                assert(out_mid + ccs0 =~= out_mid + chunks_abs(cc@));
            }
            while cc.len() > 0
                invariant
                    chunks_abs(out.chunks@) + chunks_abs(cc@) == out_mid + ccs0,
                decreases cc@.len(),
            {
                let ghost cc_pre = cc@;
                let head = cc.remove(0);
                out.chunks.push(head);
                proof {
                    assert(chunks_abs(out.chunks@) + chunks_abs(cc@) =~~= out_mid + ccs0);
                }
            }
            proof {
                assert(chunks_abs(cc@) =~= Seq::<ChunkV>::empty());
                assert(chunks_abs(out.chunks@) =~~= out_mid + cellv);
            }
            let ghost out_cell = chunks_abs(out.chunks@);
            if text_length < widths[j] {
                let padlen = widths[j] - text_length;
                out.chunks.push(StyledText::plain(spaces(padlen)));
                proof {
                    assert(chunks_abs(out.chunks@) =~~= out_cell + seq![
                        ChunkV {
                            text: Seq::new((padlen) as nat, |i: int| ' '),
                            style: TextStyle::plain_spec(),
                        },
                    ]);
                }
            }
            proof {
                assert(display_width(joined(cellv)) == text_length);
                let cw = display_width(joined(cells0[j as int]@));
                let spec_sep: Seq<ChunkV> = if j > 0 {
                    seq![
                        ChunkV { text: seq![' ', '\u{2502}', ' '], style: TextStyle::plain_spec() },
                    ]
                } else {
                    Seq::<ChunkV>::empty()
                };
                let spec_pad: Seq<ChunkV> = if cw < w[j as int] {
                    seq![
                        ChunkV {
                            text: Seq::new((w[j as int] - cw) as nat, |i: int| ' '),
                            style: TextStyle::plain_spec(),
                        },
                    ]
                } else {
                    Seq::<ChunkV>::empty()
                };
                assert(w[j as int] == widths@[j as int] as nat);
                assert(cw == text_length as nat);
                assert(out_mid =~~= out_pre + spec_sep);
                assert(out_cell =~~= out_pre + spec_sep + cellv);
                assert(chunks_abs(out.chunks@) =~~= out_pre + spec_sep + cellv + spec_pad);
                assert(row_chunks_from(cells0.skip(j as int), w, j as int) =~~= spec_sep + cells0[
                    j as int
                ]@ + spec_pad + row_chunks_from(cells0.skip(j + 1), w, j + 1));
                assert(chunks_abs(out.chunks@) + row_chunks_from(cells0.skip(j + 1), w, j + 1)
                    =~~= row_chunks_from(cells0, w, 0));
            }
            j = j + 1;
        }
        proof {
            assert(cells0.skip(cells0.len() as int) =~= Seq::<Text>::empty());
            assert(row_chunks_from(Seq::<Text>::empty(), w, j as int) =~= Seq::<ChunkV>::empty());
            assert(out@ =~~= row_chunks_from(cells0, w, 0));
        }
        out
    }

    /// Append a table: the flattened header, a box-drawing separator line,
    /// and each flattened data row.
    fn push_table(&mut self, table: Table)
        requires
            forall|i: int|
                0 <= i < table.rows@.len() ==> (#[trigger] table.rows@[i]).0@.len()
                    <= table.header.0@.len(),
        ensures
            final(self).st() == (BuildStateA {
                ops: old(self).st().ops + table_ops(old(self).theme@, table),
                ..old(self).st()
            }),
            final(self).env_unchanged(old(self)),
    {
        let ghost t = self.theme@;
        let ghost table0 = table;
        let Table { header, rows } = table;
        let ncols = header.0.len();
        let mut widths: Vec<usize> = Vec::new();
        let mut j: usize = 0;
        while j < ncols
            invariant
                j <= ncols,
                ncols == header.0@.len(),
                header == table0.header,
                rows@ == table0.rows@,
                widths@.len() == j,
                forall|x: int| 0 <= x < j ==> (#[trigger] widths@[x]) as nat == column_width(
                    table0,
                    x,
                ),
                self == old(self),
            decreases ncols - j,
        {
            let mut wmax = header.0[j].width();
            proof {
                assert(wmax as nat == cell_width(table0.header, j as int));
                assert(rows@.take(0) =~= Seq::<TableRow>::empty());
            }
            let mut i: usize = 0;
            while i < rows.len()
                invariant
                    i <= rows@.len(),
                    rows@ == table0.rows@,
                    j < table0.header.0@.len(),
                    wmax as nat == (if cell_width(table0.header, j as int) >= rows_max_width(
                        rows@.take(i as int),
                        j as int,
                    ) {
                        cell_width(table0.header, j as int)
                    } else {
                        rows_max_width(rows@.take(i as int), j as int)
                    }),
                decreases rows@.len() - i,
            {
                let cw: usize = if j < rows[i].0.len() {
                    rows[i].0[j].width()
                } else {
                    0
                };
                proof {
                    assert(cw as nat == cell_width(rows@[i as int], j as int));
                    lemma_rows_max_width_push(rows@.take(i as int), j as int, rows@[i as int]);
                    assert(rows@.take(i + 1) =~= rows@.take(i as int).push(rows@[i as int]));
                }
                if cw > wmax {
                    wmax = cw;
                }
                i = i + 1;
            }
            proof {
                assert(rows@.take(rows@.len() as int) =~= rows@);
                assert(wmax as nat == column_width(table0, j as int));
            }
            widths.push(wmax);
            j = j + 1;
        }
        let ghost bigw = widths_nat(widths@);
        proof {
            assert(bigw =~= table_widths(table0));
        }
        let flattened_header = Self::prepare_table_row(header, &widths);
        self.push_text(flattened_header, ElementType::Table);
        self.push_line_break();
        let mut sep_text = Text::empty();
        let mut j2: usize = 0;
        proof {
            assert(chunks_abs(sep_text.chunks@) =~= Seq::<ChunkV>::empty());
            assert(Seq::<ChunkV>::empty() + separator_chunks_from(bigw, 0) =~= separator_chunks_from(
                bigw,
                0,
            ));
        }
        while j2 < widths.len()
            invariant
                j2 <= widths@.len(),
                bigw == widths_nat(widths@),
                chunks_abs(sep_text.chunks@) + separator_chunks_from(bigw, j2 as int)
                    == separator_chunks_from(bigw, 0),
            decreases widths@.len() - j2,
        {
            let extra: usize = if j2 > 0 {
                2
            } else {
                1
            };
            let wj = widths[j2];
            let cnt: usize = if wj > usize::MAX - extra {
                usize::MAX
            } else {
                wj + extra
            };
            proof {
                assert(cnt as nat == sat_cap(bigw[j2 as int] + (extra as nat)));
            }
            let mut ctext = String::new();
            if j2 > 0 {
                crate::strutil::push_char(&mut ctext, '\u{253c}');
            }
            let dashes = repeat_char('\u{2500}', cnt);
            ctext.append(dashes.as_str());
            let ghost dash_seq = Seq::new(
                sat_cap(bigw[j2 as int] + (extra as nat)),
                |i: int| '\u{2500}',
            );
            proof {
                if j2 > 0 {
                    assert(ctext@ =~= seq!['\u{253c}'] + dash_seq);
                } else {
                    assert(ctext@ =~= dash_seq);
                }
            }
            sep_text.chunks.push(StyledText::plain(ctext));
            proof {
                assert(chunks_abs(sep_text.chunks@) + separator_chunks_from(bigw, j2 + 1)
                    =~~= separator_chunks_from(bigw, 0));
            }
            j2 = j2 + 1;
        }
        proof {
            assert(separator_chunks_from(bigw, widths@.len() as int) =~= Seq::<ChunkV>::empty());
            assert(sep_text@ =~~= separator_chunks_from(bigw, 0));
        }
        self.push_text(sep_text, ElementType::Table);
        self.push_line_break();
        let ghost mid = ops_abs(self.slide_operations@);
        let ghost rows0 = rows@;
        let mut rows = rows;
        let ghost k: int = 0;
        proof {
            assert(rows@ =~= rows0.skip(0));
            assert(rows0.take(0) =~= Seq::<TableRow>::empty());
            assert(table_rows_ops(t, Seq::<TableRow>::empty(), bigw) =~= Seq::<OpV>::empty());
            assert(mid + table_rows_ops(t, rows0.take(0), bigw) =~= mid);
        }
        while rows.len() > 0
            invariant
                0 <= k <= rows0.len(),
                rows@ == rows0.skip(k),
                rows0 == table0.rows@,
                forall|i: int| 0 <= i < rows0.len() ==> (#[trigger] rows0[i]).0@.len()
                    <= table0.header.0@.len(),
                bigw == table_widths(table0),
                bigw.len() == table0.header.0@.len(),
                widths_nat(widths@) == bigw,
                widths@.len() == table0.header.0@.len(),
                mid == old(self).st().ops + text_line_ops(
                    t,
                    prepared_row_chunks(table0.header, bigw),
                    ElementType::Table,
                ) + seq![OpV::LineBreakV] + text_line_ops(
                    t,
                    separator_chunks_from(bigw, 0),
                    ElementType::Table,
                ) + seq![OpV::LineBreakV],
                ops_abs(self.slide_operations@) == mid + table_rows_ops(t, rows0.take(k), bigw),
                slides_abs(self.slides@) == slides_abs(old(self).slides@),
                self.ignore_element_line_break == old(self).ignore_element_line_break,
                self.last_element_is_list == old(self).last_element_is_list,
                self.env_unchanged(old(self)),
                t == self.theme@,
            decreases rows@.len(),
        {
            let row = rows.remove(0);
            proof {
                assert(row == rows0[k]);
                assert(rows@ =~= rows0.skip(k + 1));
            }
            let flattened_row = Self::prepare_table_row(row, &widths);
            self.push_text(flattened_row, ElementType::Table);
            self.push_line_break();
            proof {
                lemma_table_rows_ops_push(t, rows0.take(k), bigw, rows0[k]);
                assert(rows0.take(k + 1) =~= rows0.take(k).push(rows0[k]));
                assert(ops_abs(self.slide_operations@) =~~= mid + table_rows_ops(
                    t,
                    rows0.take(k + 1),
                    bigw,
                ));
                k = k + 1;
            }
        }
        proof {
            assert(rows0.take(rows0.len() as int) =~= rows0);
            assert(final(self).st().ops =~~= old(self).st().ops + table_ops(t, table0));
            assert(final(self).st() =~~= (BuildStateA {
                ops: old(self).st().ops + table_ops(t, table0),
                ..old(self).st()
            }));
        }
    }

    /// Synthesize and terminate the intro slide from the front-matter
    /// metadata.
    #[verifier::rlimit(100)]
    fn push_intro_slide(&mut self, metadata: PresentationMetadata)
        ensures
            final(self).st() == terminate_spec(
                old(self).theme@,
                BuildStateA {
                    ops: old(self).st().ops + intro_ops(old(self).theme@, metadata@),
                    ..old(self).st()
                },
            ),
            final(self).env_unchanged(old(self)),
    {
        let ghost t = self.theme@;
        let ghost md0 = metadata@;
        let ghost sub_part: Seq<OpV> = match md0.sub_title {
            Some(s) => text_line_ops(
                t,
                seq![
                    ChunkV {
                        text: s,
                        style: crate::presentation::plain_with_colors(
                            t.intro_slide.subtitle.colors,
                        ),
                    },
                ],
                ElementType::PresentationSubTitle,
            ) + seq![OpV::LineBreakV],
            None => Seq::<OpV>::empty(),
        };
        let ghost pos_part: Seq<OpV> = match t.intro_slide.positioning {
            Some(crate::theme::AuthorPositioning::PageBottom) => seq![OpV::JumpToSlideBottomV],
            _ => seq![OpV::LineBreakV, OpV::LineBreakV, OpV::LineBreakV],
        };
        let ghost auth_part: Seq<OpV> = match md0.author {
            Some(a) => pos_part + text_line_ops(
                t,
                seq![
                    ChunkV {
                        text: a,
                        style: crate::presentation::plain_with_colors(t.intro_slide.author.colors),
                    },
                ],
                ElementType::PresentationAuthor,
            ),
            None => Seq::<OpV>::empty(),
        };
        let styles = self.theme.intro_slide;
        let title_str = match metadata.title {
            Some(s) => s,
            None => String::new(),
        };
        let title = StyledText::new(title_str, TextStyle::plain().bold().colors(styles.title.colors));
        self.slide_operations.push(RenderOperation::JumpToVerticalCenter);
        let ghost title_chunk = ChunkV {
            text: match md0.title {
                Some(s) => s,
                None => Seq::<char>::empty(),
            },
            style: bold_with(t.intro_slide.title.colors),
        };
        self.push_text(Text::single(title), ElementType::PresentationTitle);
        self.push_line_break();
        proof {
            assert(ops_abs(self.slide_operations@) =~~= old(self).st().ops + seq![
                OpV::JumpToVerticalCenterV,
            ] + text_line_ops(t, seq![title_chunk], ElementType::PresentationTitle) + seq![
                OpV::LineBreakV,
            ]);
        }
        let ghost after_title = ops_abs(self.slide_operations@);
        match metadata.sub_title {
            Some(sub) => {
                let chunk = StyledText::new(sub, TextStyle::plain().colors(styles.subtitle.colors));
                self.push_text(Text::single(chunk), ElementType::PresentationSubTitle);
                self.push_line_break();
            },
            None => {},
        }
        let ghost after_sub = ops_abs(self.slide_operations@);
        proof {
            assert(after_sub =~~= after_title + sub_part);
        }
        match metadata.author {
            Some(author) => {
                let ghost av = author@;
                match styles.positioning {
                    Some(crate::theme::AuthorPositioning::PageBottom) => {
                        self.slide_operations.push(RenderOperation::JumpToSlideBottom);
                    },
                    _ => {
                        self.push_line_break();
                        self.push_line_break();
                        self.push_line_break();
                    },
                }
                proof {
                    assert(ops_abs(self.slide_operations@) =~~= after_sub + pos_part);
                }
                let chunk = StyledText::new(author, TextStyle::plain().colors(styles.author.colors));
                self.push_text(Text::single(chunk), ElementType::PresentationAuthor);
                proof {
                    assert(ops_abs(self.slide_operations@) =~~= after_sub + auth_part);
                }
            },
            None => {},
        }
        proof {
            assert(ops_abs(self.slide_operations@) =~~= after_sub + auth_part);
            assert(intro_ops(t, md0) =~~= seq![OpV::JumpToVerticalCenterV] + text_line_ops(
                t,
                seq![title_chunk],
                ElementType::PresentationTitle,
            ) + seq![OpV::LineBreakV] + sub_part + auth_part);
            assert(ops_abs(self.slide_operations@) =~~= old(self).st().ops + intro_ops(t, md0));
        }
        self.terminate_slide();
        proof {
            assert(final(self).st() =~~= terminate_spec(
                t,
                BuildStateA { ops: old(self).st().ops + intro_ops(t, md0), ..old(self).st() },
            ));
        }
    }

    /// Resolve the theme the front matter picks: named lookup or path
    /// lookup, then the inline overrides merged on top. Both a name and a
    /// path at once is a metadata error.
    fn set_theme(&mut self, metadata: &crate::metadata::PresentationThemeMetadata) -> (r: Result<
        (),
        BuildError,
    >)
        ensures
            r is Ok <==> effective_theme_of(metadata@, old(self).theme@, old(self).resources)
                is Some,
            r is Ok ==> Some(final(self).theme@) == effective_theme_of(
                metadata@,
                old(self).theme@,
                old(self).resources,
            ),
            final(self).st() == old(self).st(),
            final(self).footer_author == old(self).footer_author,
            final(self).highlighter == old(self).highlighter,
            final(self).resources == old(self).resources,
            r matches Err(e) ==> fm_error_kind(e, metadata@),
    {
        if metadata.theme_name.is_some() && metadata.theme_path.is_some() {
            return Err(
                BuildError::InvalidMetadata(
                    String::from_str("cannot have both theme path and theme name"),
                ),
            );
        }
        if let Some(theme_name) = &metadata.theme_name {
            match PresentationTheme::from_name(theme_name.as_str()) {
                Some(theme) => {
                    self.theme = theme;
                },
                None => {
                    let mut message = String::from_str("theme '");
                    message.append(theme_name.as_str());
                    message.append("' does not exist");
                    return Err(BuildError::InvalidMetadata(message));
                },
            }
        }
        if let Some(theme_path) = &metadata.theme_path {
            match self.resources.theme(theme_path.as_str()) {
                Ok(theme) => {
                    self.theme = theme;
                },
                Err(e) => {
                    return Err(BuildError::InvalidTheme(e));
                },
            }
        }
        if let Some(overrides) = &metadata.overrides {
            self.theme = self.theme.merge(overrides);
        }
        Ok(())
    }

    /// Apply parsed front-matter metadata: record the author, resolve the
    /// theme, and synthesize the intro slide when a title, subtitle or
    /// author is present.
    pub fn apply_front_matter(&mut self, metadata: PresentationMetadata) -> (r: Result<
        (),
        BuildError,
    >)
        ensures
            r is Ok <==> effective_theme_of(
                metadata@.theme,
                old(self).theme@,
                old(self).resources,
            ) is Some,
            r is Ok ==> Some(final(self).theme@) == effective_theme_of(
                metadata@.theme,
                old(self).theme@,
                old(self).resources,
            ) && final(self).footer_author@ == author_of(metadata@) && final(self).st()
                == fm_state(final(self).theme@, metadata@, old(self).st()),
            final(self).highlighter == old(self).highlighter,
            final(self).resources == old(self).resources,
            r matches Err(e) ==> fm_error_kind(e, metadata@.theme),
    {
        let ghost md0 = metadata;
        self.footer_author = match &metadata.author {
            Some(a) => a.clone(),
            None => String::new(),
        };
        match self.set_theme(&metadata.theme) {
            Ok(()) => {},
            Err(e) => {
                return Err(e);
            },
        }
        let has_intro = metadata.title.is_some() || metadata.sub_title.is_some()
            || metadata.author.is_some();
        if has_intro {
            self.push_slide_prelude();
            self.push_intro_slide(metadata);
        }
        Ok(())
    }

    /// Parse and apply the front matter, or report why it is invalid.
    fn process_front_matter(&mut self, contents: &str) -> (r: Result<(), BuildError>)
        ensures
            final(self).highlighter == old(self).highlighter,
            final(self).resources == old(self).resources,
            yaml_doc_of(contents@) is None ==> r matches Err(BuildError::InvalidMetadata(_)),
            yaml_doc_of(contents@) matches Some(doc) ==> {
                let m = doc_meta(doc);
                match effective_theme_of(m.theme, old(self).theme@, old(self).resources) {
                    None => (r matches Err(e) && fm_error_kind(e, m.theme)),
                    Some(te) => {
                        &&& r is Ok
                        &&& final(self).theme@ == te
                        &&& final(self).footer_author@ == author_of(m)
                        &&& final(self).st() == fm_state(te, m, old(self).st())
                    },
                }
            },
    {
        match parse_metadata(contents) {
            Err(message) => Err(BuildError::InvalidMetadata(message)),
            Ok(metadata) => {
                let ghost mdg = metadata@;
                match self.apply_front_matter(metadata) {
                    Ok(()) => Ok(()),
                    Err(e) => Err(e),
                }
            },
        }
    }

    /// Dispatch one element to its push routine and record whether it was a
    /// list.
    fn process_element(&mut self, element: MarkdownElement) -> (r: Result<(), BuildError>)
        requires
            element_wf(element),
            old(self).st().ignore_break == false,
        ensures
            r is Ok ==> final(self).st() == step_core(old(self).theme@, old(self).st(), element)
                && final(self).env_unchanged(old(self)),
            !(element is Image) ==> r is Ok,
            element matches MarkdownElement::Image(path) ==> (r is Ok <==> has_image(
                old(self).resources.image_paths@,
                path@,
            )),
            r matches Err(e) ==> e is LoadImage,
    {
        let ghost st0 = self.st();
        let ghost t = self.theme@;
        let ghost e0 = element;
        let is_list = matches!(element, MarkdownElement::List(_));
        match element {
            MarkdownElement::FrontMatter(_) => {
                self.ignore_element_line_break = true;
            },
            MarkdownElement::SetexHeading { text } => {
                self.push_slide_title(text);
            },
            MarkdownElement::Heading { level, text } => {
                self.push_heading(level, text);
            },
            MarkdownElement::Paragraph(elements) => {
                match self.push_paragraph(elements) {
                    Ok(()) => {},
                    Err(e) => {
                        return Err(e);
                    },
                }
            },
            MarkdownElement::List(elements) => {
                self.push_list(elements);
            },
            MarkdownElement::Code(code) => {
                self.push_code(code);
            },
            MarkdownElement::Table(table) => {
                self.push_table(table);
            },
            MarkdownElement::ThematicBreak => {
                self.terminate_slide();
            },
            MarkdownElement::Comment(comment) => {
                self.process_comment(comment);
            },
            MarkdownElement::BlockQuote(lines) => {
                self.push_block_quote(lines);
            },
            MarkdownElement::Image(path) => {
                match self.push_image(path) {
                    Ok(()) => {},
                    Err(e) => {
                        return Err(e);
                    },
                }
            },
        }
        self.last_element_is_list = is_list;
        proof {
            assert(final(self).st() =~~= step_core(t, st0, e0));
        }
        Ok(())
    }

    /// Build a presentation from the document's elements.
    ///
    /// Without front matter the result is pinned exactly: the slides equal
    /// [`build_model`] over the builder's default theme, provided every
    /// image the document names was registered; otherwise the build fails
    /// with the load error. With front matter, the same holds for the
    /// metadata the front matter parsed into and the theme it resolves.
    pub fn build(self, elements: Vec<MarkdownElement>) -> (r: Result<Presentation, BuildError>)
        requires
            elements_wf(elements@),
            self.st() == (BuildStateA {
                ops: Seq::<OpV>::empty(),
                slides: Seq::<Seq<OpV>>::empty(),
                ignore_break: false,
                last_is_list: false,
            }),
        ensures
            (elements@.len() == 0 || !(elements@[0] is FrontMatter)) ==> {
                &&& (images_ok(self.resources, elements@) <==> r is Ok)
                &&& (r matches Ok(p) ==> slides_abs(p.slides@) == build_model(
                    self.theme@,
                    None,
                    elements@,
                ) && p.footer_context@.author == self.footer_author@)
                &&& (r matches Err(e) ==> e is LoadImage)
            },
            r matches Ok(p) ==> p.wf() && p.current_index_spec() == 0 && p.footer_context@
                .total_slides == p.slides@.len(),
            elements@.len() > 0 ==> (elements@[0] matches MarkdownElement::FrontMatter(c)
                ==> fm_build_outcome(r, c@, self.theme@, self.resources, elements@)),
    {
        let mut this = self;
        let ghost els0 = elements@;
        let mut els = elements;
        let ghost base_theme = this.theme@;
        let mut has_fm = false;
        let mut front: Option<String> = None;
        if els.len() > 0 {
            match &els[0] {
                MarkdownElement::FrontMatter(c) => {
                    front = Some(c.clone());
                    proof {
                        assert(els0[0] is FrontMatter);
                    }
                },
                _ => {},
            }
        }
        let ghost text: Seq<char> = if front is Some {
            front.unwrap()@
        } else {
            Seq::<char>::empty()
        };
        proof {
            assert(front is Some ==> els0.len() > 0 && els0[0] is FrontMatter);
            assert((els0.len() > 0 && els0[0] is FrontMatter) ==> front is Some);
            assert(els0.len() > 0 ==> (els0[0] matches MarkdownElement::FrontMatter(cc) ==> cc@
                == text));
        }
        if let Some(contents) = front {
            has_fm = true;
            match this.process_front_matter(contents.as_str()) {
                Ok(()) => {},
                Err(e) => {
                    proof {
                        assert(els0.len() > 0 && els0[0] is FrontMatter);
                    }
                    return Err(e);
                },
            }
        }
        let ghost t_eff = this.theme@;
        let ghost md_used: Option<MetaA> = if has_fm {
            Some(doc_meta(yaml_doc_of(text).unwrap()))
        } else {
            None
        };
        if this.slide_operations.is_empty() {
            this.push_slide_prelude();
        }
        proof {
            assert(this.st() =~~= initial_state(t_eff, md_used));
        }
        let ghost init_st = this.st();
        let ghost k: int = 0;
        proof {
            assert(els@ =~= els0.skip(0));
            assert(els0.take(0) =~= Seq::<MarkdownElement>::empty());
            assert(steps(t_eff, init_st, els0.take(0)) == init_st);
        }
        while els.len() > 0
            invariant
                0 <= k <= els0.len(),
                els@ == els0.skip(k),
                elements_wf(els0),
                this.st() == steps(t_eff, init_st, els0.take(k)),
                init_st == initial_state(t_eff, md_used),
                this.theme@ == t_eff,
                this.st().ops.len() > 0 || this.st().slides.len() > 0,
                forall|x: int|
                    0 <= x < k ==> match #[trigger] els0[x] {
                        MarkdownElement::Image(path) => has_image(
                            this.resources.image_paths@,
                            path@,
                        ),
                        _ => true,
                    },
                this.footer_author@ == (if has_fm {
                    author_of(md_used.unwrap())
                } else {
                    self.footer_author@
                }),
                this.resources == self.resources,
                has_fm ==> (yaml_doc_of(text) matches Some(doc) && md_used == Some(
                    doc_meta(doc),
                ) && effective_theme_of(doc_meta(doc).theme, base_theme, self.resources) == Some(
                    t_eff,
                )),
                base_theme == self.theme@,
                !has_fm ==> (t_eff == base_theme && md_used is None && this.footer_author@
                    == self.footer_author@),
                has_fm ==> md_used is Some,
                has_fm == (els0.len() > 0 && els0[0] is FrontMatter),
                els0.len() > 0 ==> (els0[0] matches MarkdownElement::FrontMatter(cc) ==> cc@
                    == text),
                els0 == elements@,
            decreases els@.len(),
        {
            let element = els.remove(0);
            proof {
                assert(element == els0[k]);
                assert(els@ =~= els0.skip(k + 1));
                assert(element_wf(els0[k]));
            }
            this.ignore_element_line_break = false;
            let ghost st_pre = this.st();
            match this.process_element(element) {
                Ok(()) => {},
                Err(e) => {
                    proof {
                        assert(!images_ok(self.resources, elements@));
                    }
                    return Err(e);
                },
            }
            if !this.ignore_element_line_break {
                this.push_line_break();
            }
            proof {
                let st_mid = steps(t_eff, init_st, els0.take(k));
                assert(st_pre =~~= (BuildStateA { ignore_break: false, ..st_mid }));
                assert(step_core(t_eff, st_pre, els0[k]) =~~= step_core(t_eff, st_mid, els0[k]));
                assert(this.st() =~~= step(t_eff, st_mid, els0[k]));
                lemma_steps_push(t_eff, init_st, els0.take(k), els0[k]);
                assert(els0.take(k + 1) =~= els0.take(k).push(els0[k]));
                assert(this.st() == steps(t_eff, init_st, els0.take(k + 1)));
                lemma_step_keeps_content(t_eff, st_mid, els0[k]);
                k = k + 1;
            }
        }
        proof {
            assert(els0.take(els0.len() as int) =~= els0);
        }
        if !this.slide_operations.is_empty() {
            this.terminate_slide();
        }
        proof {
            assert(slides_abs(this.slides@) == build_model(t_eff, md_used, els0));
            assert(this.slides@.len() > 0);
        }
        let total = this.slides.len();
        let author = this.footer_author.clone();
        let footer_context = FooterContext { total_slides: total, author };
        let presentation = Presentation::new(this.slides, footer_context);
        Ok(presentation)
    }
}

/// Width is measured in display columns, never in bytes or scalar values:
/// for a one-line block quote under a theme with no quote prefix, and a
/// one-line code block under a theme with no code padding, both emitted
/// preformatted operations report the line's display width as both the
/// block width and the unformatted width. The hypotheses pin the single-line
/// shape: the text holds no newline (it is its own only line) and no
/// trailing whitespace.
pub proof fn lemma_preformatted_widths_are_display_columns(t: ThemeA, line: String, code: Code)
    requires
        t.block_quote.prefix is None,
        t.code.padding_horizontal is None,
        t.code.padding_vertical is None,
        code.contents@ == line@,
        lines_of(line@) == seq![line@],
        trim_end_spec(line@) == line@,
        display_width(line@) <= usize::MAX,
    ensures
        quote_ops(t, seq![line])[1] == (OpV::PreformattedLineV {
            text: line@,
            unformatted_length: display_width(line@),
            block_length: display_width(line@),
            alignment: PresentationTheme::alignment_spec(t, ElementType::BlockQuote),
        }),
        code_ops(t, code)[0] == (OpV::PreformattedLineV {
            text: line@,
            unformatted_length: display_width(line@),
            block_length: display_width(line@),
            alignment: PresentationTheme::alignment_spec(t, ElementType::Code),
        }),
{
    let one = seq![line];
    assert(one[0] == line);
    assert(one.skip(1) =~= Seq::<String>::empty());
    assert(Seq::<char>::empty() + line@ =~= line@);
    assert(quote_block_len(Seq::<String>::empty(), Seq::<char>::empty()) == 0);
    assert(quote_block_len(one, Seq::<char>::empty()) == display_width(line@));
    let qls = quote_lines_ops(t, Seq::<char>::empty(), display_width(line@), one);
    assert(quote_lines_ops(t, Seq::<char>::empty(), display_width(line@), Seq::<String>::empty())
        =~= Seq::<OpV>::empty());
    assert(qls =~= quote_line_ops(t, Seq::<char>::empty(), display_width(line@), line));
    assert(quote_ops(t, one)[1] == qls[0]);

    let cls = lines_of(line@);
    assert(padded_code(code.contents@, 0, 0) == line@);
    assert(cls[0] == line@);
    assert(cls.skip(1) =~= Seq::<Seq<char>>::empty());
    assert(max_line_width(Seq::<Seq<char>>::empty()) == 0);
    assert(max_line_width(cls) == display_width(line@));
    assert(sat_cap(max_line_width(cls) + 0) == display_width(line@));
    assert(code_ops(t, code)[0] == code_line_ops(t, cls, display_width(line@))[0]);
    assert(code_line_ops(t, cls, display_width(line@))[0] == code_one_line_ops(
        t,
        line@,
        display_width(line@),
    )[0]);
}

/// How many operations of a program clear the screen.
pub open spec fn clear_count(s: Seq<OpV>) -> nat
    decreases s.len(),
{
    if s.len() == 0 {
        0
    } else {
        (if s[0] is ClearScreenV {
            1nat
        } else {
            0nat
        }) + clear_count(s.skip(1))
    }
}

/// How many operations of a program set colors.
pub open spec fn set_colors_count(s: Seq<OpV>) -> nat
    decreases s.len(),
{
    if s.len() == 0 {
        0
    } else {
        (if s[0] is SetColorsV {
            1nat
        } else {
            0nat
        }) + set_colors_count(s.skip(1))
    }
}

/// Counts add over concatenation.
pub proof fn lemma_counts_concat(a: Seq<OpV>, b: Seq<OpV>)
    ensures
        clear_count(a + b) == clear_count(a) + clear_count(b),
        set_colors_count(a + b) == set_colors_count(a) + set_colors_count(b),
    decreases a.len(),
{
    if a.len() == 0 {
        assert(a + b =~= b);
    } else {
        assert((a + b).skip(1) =~= a.skip(1) + b);
        assert((a + b)[0] == a[0]);
        lemma_counts_concat(a.skip(1), b);
    }
}

/// Counts of a one-operation program.
pub proof fn lemma_counts_singleton(op: OpV)
    ensures
        clear_count(seq![op]) == (if op is ClearScreenV {
            1nat
        } else {
            0nat
        }),
        set_colors_count(seq![op]) == (if op is SetColorsV {
            1nat
        } else {
            0nat
        }),
{
    assert(seq![op].skip(1) =~= Seq::<OpV>::empty());
    assert(clear_count(Seq::<OpV>::empty()) == 0);
    assert(set_colors_count(Seq::<OpV>::empty()) == 0);
}

/// Neither count appears in a pushed text line.
pub proof fn lemma_counts_text_line(t: ThemeA, chunks: Seq<ChunkV>, et: ElementType)
    ensures
        clear_count(text_line_ops(t, chunks, et)) == 0,
        set_colors_count(text_line_ops(t, chunks, et)) == 0,
{
    if chunks.len() == 0 {
        assert(clear_count(Seq::<OpV>::empty()) == 0);
        assert(set_colors_count(Seq::<OpV>::empty()) == 0);
    } else {
        lemma_counts_singleton(text_line_ops(t, chunks, et)[0]);
        assert(text_line_ops(t, chunks, et) =~= seq![text_line_ops(t, chunks, et)[0]]);
    }
}

/// Neither count appears in a run of line breaks.
pub proof fn lemma_counts_line_breaks(n: nat)
    ensures
        clear_count(line_breaks(n)) == 0,
        set_colors_count(line_breaks(n)) == 0,
    decreases n,
{
    if n == 0 {
        assert(line_breaks(0) =~= Seq::<OpV>::empty());
    } else {
        assert(line_breaks(n).skip(1) =~= line_breaks((n - 1) as nat));
        lemma_counts_line_breaks((n - 1) as nat);
    }
}

/// Neither count appears in a heading's emission.
pub proof fn lemma_counts_heading(t: ThemeA, level: u8, text: Seq<ChunkV>)
    ensures
        clear_count(heading_ops(t, level, text)) == 0,
        set_colors_count(heading_ops(t, level, text)) == 0,
{
    let style = heading_style_for(t, level);
    let base = match style.prefix {
        Some(p) => seq![ChunkV { text: p.push(' '), style: TextStyle::plain_spec() }] + text,
        None => text,
    };
    let line = text_line_ops(t, applied_style(base, bold_with(style.colors)), element_type_for(level));
    lemma_counts_text_line(t, applied_style(base, bold_with(style.colors)), element_type_for(level));
    lemma_counts_singleton(OpV::LineBreakV);
    lemma_counts_concat(line, seq![OpV::LineBreakV]);
}

/// Neither count appears in a slide title's emission.
pub proof fn lemma_counts_slide_title(t: ThemeA, text: Seq<ChunkV>)
    ensures
        clear_count(slide_title_ops(t, text)) == 0,
        set_colors_count(slide_title_ops(t, text)) == 0,
{
    let st = t.slide_title;
    let pt: nat = match st.padding_top {
        Some(n) => n as nat,
        None => 0,
    };
    let pb: nat = match st.padding_bottom {
        Some(n) => n as nat,
        None => 0,
    };
    let sep: bool = match st.separator {
        Some(b) => b,
        None => false,
    };
    let line = text_line_ops(t, applied_style(text, bold_with(st.colors)), ElementType::SlideTitle);
    let sep_ops: Seq<OpV> = if sep {
        seq![OpV::SeparatorV]
    } else {
        Seq::<OpV>::empty()
    };
    lemma_counts_line_breaks(pt);
    lemma_counts_line_breaks(pb);
    lemma_counts_text_line(t, applied_style(text, bold_with(st.colors)), ElementType::SlideTitle);
    lemma_counts_singleton(OpV::LineBreakV);
    lemma_counts_singleton(OpV::SeparatorV);
    if !sep {
        assert(clear_count(sep_ops) == 0);
        assert(set_colors_count(sep_ops) == 0);
    }
    lemma_counts_concat(line_breaks(pt), line);
    lemma_counts_concat(line_breaks(pt) + line, seq![OpV::LineBreakV]);
    lemma_counts_concat(line_breaks(pt) + line + seq![OpV::LineBreakV], line_breaks(pb));
    lemma_counts_concat(line_breaks(pt) + line + seq![OpV::LineBreakV] + line_breaks(pb), sep_ops);
    lemma_counts_concat(
        line_breaks(pt) + line + seq![OpV::LineBreakV] + line_breaks(pb) + sep_ops,
        seq![OpV::LineBreakV],
    );
}

/// Neither count appears in a paragraph's emission.
pub proof fn lemma_counts_paragraph(t: ThemeA, els: Seq<ParagraphElement>)
    ensures
        clear_count(paragraph_ops(t, els)) == 0,
        set_colors_count(paragraph_ops(t, els)) == 0,
    decreases els.len(),
{
    if els.len() == 0 {
        assert(clear_count(Seq::<OpV>::empty()) == 0);
        assert(set_colors_count(Seq::<OpV>::empty()) == 0);
    } else {
        match els[0] {
            ParagraphElement::Text(x) => {
                lemma_counts_text_line(t, x@, ElementType::Paragraph);
                lemma_counts_singleton(OpV::LineBreakV);
                lemma_counts_concat(
                    text_line_ops(t, x@, ElementType::Paragraph),
                    seq![OpV::LineBreakV],
                );
            },
            ParagraphElement::LineBreak => {
                assert(clear_count(Seq::<OpV>::empty()) == 0);
                assert(set_colors_count(Seq::<OpV>::empty()) == 0);
            },
        }
        lemma_counts_paragraph(t, els.skip(1));
        lemma_counts_concat(paragraph_piece_ops(t, els[0]), paragraph_ops(t, els.skip(1)));
    }
}

/// Neither count appears in a list's emission.
pub proof fn lemma_counts_list(t: ThemeA, items: Seq<ListItem>)
    ensures
        clear_count(list_ops(t, items)) == 0,
        set_colors_count(list_ops(t, items)) == 0,
    decreases items.len(),
{
    if items.len() == 0 {
        assert(clear_count(Seq::<OpV>::empty()) == 0);
        assert(set_colors_count(Seq::<OpV>::empty()) == 0);
    } else {
        let item = items[0];
        let chunks = seq![ChunkV { text: list_item_prefix(item), style: TextStyle::plain_spec() }]
            + item.contents@;
        lemma_counts_text_line(t, chunks, ElementType::List);
        lemma_counts_singleton(OpV::LineBreakV);
        lemma_counts_concat(text_line_ops(t, chunks, ElementType::List), seq![OpV::LineBreakV]);
        lemma_counts_list(t, items.skip(1));
        lemma_counts_concat(list_item_ops(t, item), list_ops(t, items.skip(1)));
    }
}

/// A block quote's emission clears nothing and sets colors exactly twice:
/// the quote colors on and the defaults back.
pub proof fn lemma_counts_quote_lines(t: ThemeA, prefix: Seq<char>, block: nat, lines: Seq<String>)
    ensures
        clear_count(quote_lines_ops(t, prefix, block, lines)) == 0,
        set_colors_count(quote_lines_ops(t, prefix, block, lines)) == 0,
    decreases lines.len(),
{
    if lines.len() == 0 {
        assert(clear_count(Seq::<OpV>::empty()) == 0);
        assert(set_colors_count(Seq::<OpV>::empty()) == 0);
    } else {
        let one = quote_line_ops(t, prefix, block, lines[0]);
        lemma_counts_singleton(one[0]);
        lemma_counts_singleton(OpV::LineBreakV);
        assert(one =~= seq![one[0]] + seq![OpV::LineBreakV]);
        lemma_counts_concat(seq![one[0]], seq![OpV::LineBreakV]);
        lemma_counts_quote_lines(t, prefix, block, lines.skip(1));
        lemma_counts_concat(one, quote_lines_ops(t, prefix, block, lines.skip(1)));
    }
}

/// See [`lemma_counts_quote_lines`]: the whole quote emission sets colors
/// twice and clears nothing.
pub proof fn lemma_counts_quote(t: ThemeA, lines: Seq<String>)
    ensures
        clear_count(quote_ops(t, lines)) == 0,
        set_colors_count(quote_ops(t, lines)) == 2,
{
    let prefix = match t.block_quote.prefix {
        Some(p) => p,
        None => Seq::<char>::empty(),
    };
    let block = quote_block_len(lines, prefix);
    lemma_counts_singleton(OpV::SetColorsV(t.block_quote.colors));
    lemma_counts_singleton(OpV::SetColorsV(t.default_style.colors));
    lemma_counts_quote_lines(t, prefix, block, lines);
    lemma_counts_concat(
        seq![OpV::SetColorsV(t.block_quote.colors)],
        quote_lines_ops(t, prefix, block, lines),
    );
    lemma_counts_concat(
        seq![OpV::SetColorsV(t.block_quote.colors)] + quote_lines_ops(t, prefix, block, lines),
        seq![OpV::SetColorsV(t.default_style.colors)],
    );
}

/// Neither count appears in a code block's emission.
pub proof fn lemma_counts_code_lines(t: ThemeA, lines: Seq<Seq<char>>, block: nat)
    ensures
        clear_count(code_line_ops(t, lines, block)) == 0,
        set_colors_count(code_line_ops(t, lines, block)) == 0,
    decreases lines.len(),
{
    if lines.len() == 0 {
        assert(clear_count(Seq::<OpV>::empty()) == 0);
        assert(set_colors_count(Seq::<OpV>::empty()) == 0);
    } else {
        let one = code_one_line_ops(t, lines[0], block);
        lemma_counts_singleton(one[0]);
        lemma_counts_singleton(OpV::LineBreakV);
        assert(one =~= seq![one[0]] + seq![OpV::LineBreakV]);
        lemma_counts_concat(seq![one[0]], seq![OpV::LineBreakV]);
        lemma_counts_code_lines(t, lines.skip(1), block);
        lemma_counts_concat(one, code_line_ops(t, lines.skip(1), block));
    }
}

/// Neither count appears in a table's emission.
pub proof fn lemma_counts_table_rows(t: ThemeA, rows: Seq<TableRow>, widths: Seq<nat>)
    ensures
        clear_count(table_rows_ops(t, rows, widths)) == 0,
        set_colors_count(table_rows_ops(t, rows, widths)) == 0,
    decreases rows.len(),
{
    if rows.len() == 0 {
        assert(clear_count(Seq::<OpV>::empty()) == 0);
        assert(set_colors_count(Seq::<OpV>::empty()) == 0);
    } else {
        lemma_counts_text_line(t, prepared_row_chunks(rows[0], widths), ElementType::Table);
        lemma_counts_singleton(OpV::LineBreakV);
        lemma_counts_concat(
            text_line_ops(t, prepared_row_chunks(rows[0], widths), ElementType::Table),
            seq![OpV::LineBreakV],
        );
        lemma_counts_table_rows(t, rows.skip(1), widths);
        lemma_counts_concat(table_row_ops(t, rows[0], widths), table_rows_ops(t, rows.skip(1), widths));
    }
}

/// Neither count appears in a table's emission.
pub proof fn lemma_counts_table(t: ThemeA, tb: Table)
    ensures
        clear_count(table_ops(t, tb)) == 0,
        set_colors_count(table_ops(t, tb)) == 0,
{
    let widths = table_widths(tb);
    let header = text_line_ops(t, prepared_row_chunks(tb.header, widths), ElementType::Table);
    let sep = text_line_ops(t, separator_chunks_from(widths, 0), ElementType::Table);
    lemma_counts_text_line(t, prepared_row_chunks(tb.header, widths), ElementType::Table);
    lemma_counts_text_line(t, separator_chunks_from(widths, 0), ElementType::Table);
    lemma_counts_singleton(OpV::LineBreakV);
    lemma_counts_table_rows(t, tb.rows@, widths);
    lemma_counts_concat(header, seq![OpV::LineBreakV]);
    lemma_counts_concat(header + seq![OpV::LineBreakV], sep);
    lemma_counts_concat(header + seq![OpV::LineBreakV] + sep, seq![OpV::LineBreakV]);
    lemma_counts_concat(
        header + seq![OpV::LineBreakV] + sep + seq![OpV::LineBreakV],
        table_rows_ops(t, tb.rows@, widths),
    );
}

/// Neither count appears in the intro slide's content.
pub proof fn lemma_counts_intro(t: ThemeA, md: MetaA)
    ensures
        clear_count(intro_ops(t, md)) == 0,
        set_colors_count(intro_ops(t, md)) == 0,
{
    let title_text = match md.title {
        Some(s) => s,
        None => Seq::<char>::empty(),
    };
    let title = seq![ChunkV { text: title_text, style: bold_with(t.intro_slide.title.colors) }];
    let title_line = text_line_ops(t, title, ElementType::PresentationTitle);
    lemma_counts_text_line(t, title, ElementType::PresentationTitle);
    lemma_counts_singleton(OpV::JumpToVerticalCenterV);
    lemma_counts_singleton(OpV::LineBreakV);
    lemma_counts_singleton(OpV::JumpToSlideBottomV);
    let sub = match md.sub_title {
        Some(s) => text_line_ops(
            t,
            seq![
                ChunkV {
                    text: s,
                    style: crate::presentation::plain_with_colors(t.intro_slide.subtitle.colors),
                },
            ],
            ElementType::PresentationSubTitle,
        ) + seq![OpV::LineBreakV],
        None => Seq::<OpV>::empty(),
    };
    match md.sub_title {
        Some(s) => {
            let chunks = seq![
                ChunkV {
                    text: s,
                    style: crate::presentation::plain_with_colors(t.intro_slide.subtitle.colors),
                },
            ];
            lemma_counts_text_line(t, chunks, ElementType::PresentationSubTitle);
            lemma_counts_concat(
                text_line_ops(t, chunks, ElementType::PresentationSubTitle),
                seq![OpV::LineBreakV],
            );
        },
        None => {
            assert(clear_count(Seq::<OpV>::empty()) == 0);
            assert(set_colors_count(Seq::<OpV>::empty()) == 0);
        },
    }
    let pos: Seq<OpV> = match t.intro_slide.positioning {
        Some(crate::theme::AuthorPositioning::PageBottom) => seq![OpV::JumpToSlideBottomV],
        _ => seq![OpV::LineBreakV, OpV::LineBreakV, OpV::LineBreakV],
    };
    assert(seq![OpV::LineBreakV, OpV::LineBreakV, OpV::LineBreakV] =~= seq![OpV::LineBreakV]
        + seq![OpV::LineBreakV] + seq![OpV::LineBreakV]);
    lemma_counts_concat(seq![OpV::LineBreakV], seq![OpV::LineBreakV]);
    lemma_counts_concat(seq![OpV::LineBreakV] + seq![OpV::LineBreakV], seq![OpV::LineBreakV]);
    let auth: Seq<OpV> = match md.author {
        Some(a) => pos + text_line_ops(
            t,
            seq![
                ChunkV {
                    text: a,
                    style: crate::presentation::plain_with_colors(t.intro_slide.author.colors),
                },
            ],
            ElementType::PresentationAuthor,
        ),
        None => Seq::<OpV>::empty(),
    };
    match md.author {
        Some(a) => {
            let chunks = seq![
                ChunkV {
                    text: a,
                    style: crate::presentation::plain_with_colors(t.intro_slide.author.colors),
                },
            ];
            lemma_counts_text_line(t, chunks, ElementType::PresentationAuthor);
            lemma_counts_concat(pos, text_line_ops(t, chunks, ElementType::PresentationAuthor));
        },
        None => {
            assert(clear_count(Seq::<OpV>::empty()) == 0);
            assert(set_colors_count(Seq::<OpV>::empty()) == 0);
        },
    }
    lemma_counts_concat(seq![OpV::JumpToVerticalCenterV], title_line);
    lemma_counts_concat(seq![OpV::JumpToVerticalCenterV] + title_line, seq![OpV::LineBreakV]);
    lemma_counts_concat(seq![OpV::JumpToVerticalCenterV] + title_line + seq![OpV::LineBreakV], sub);
    lemma_counts_concat(
        seq![OpV::JumpToVerticalCenterV] + title_line + seq![OpV::LineBreakV] + sub,
        auth,
    );
}

/// The prelude clears the screen once and sets colors once.
pub proof fn lemma_counts_prelude(t: ThemeA)
    ensures
        clear_count(prelude_abs(t)) == 1,
        set_colors_count(prelude_abs(t)) == 1,
{
    lemma_counts_singleton(OpV::SetColorsV(t.default_style.colors));
    lemma_counts_singleton(OpV::ClearScreenV);
    lemma_counts_singleton(OpV::LineBreakV);
    assert(prelude_abs(t) =~= seq![OpV::SetColorsV(t.default_style.colors)] + seq![
        OpV::ClearScreenV,
    ] + seq![OpV::LineBreakV]);
    lemma_counts_concat(seq![OpV::SetColorsV(t.default_style.colors)], seq![OpV::ClearScreenV]);
    lemma_counts_concat(
        seq![OpV::SetColorsV(t.default_style.colors)] + seq![OpV::ClearScreenV],
        seq![OpV::LineBreakV],
    );
}

/// The prelude-count invariant the builder maintains: the in-progress
/// operations and every completed slide clear the screen exactly once, and
/// — when no block quote was emitted — set colors exactly once.
pub open spec fn counts_ok(st: BuildStateA, quote_free: bool) -> bool {
    &&& clear_count(st.ops) == 1
    &&& (quote_free ==> set_colors_count(st.ops) == 1)
    &&& forall|i: int| 0 <= i < st.slides.len() ==> clear_count(#[trigger] st.slides[i]) == 1
    &&& (quote_free ==> forall|i: int|
        0 <= i < st.slides.len() ==> set_colors_count(#[trigger] st.slides[i]) == 1)
}

/// One step preserves the prelude-count invariant (for the color half,
/// provided the element is not a block quote).
pub proof fn lemma_step_counts(t: ThemeA, st: BuildStateA, e: MarkdownElement, quote_free: bool)
    requires
        counts_ok(st, quote_free),
        quote_free ==> !(e is BlockQuote),
    ensures
        counts_ok(step(t, st, e), quote_free),
{
    lemma_counts_singleton(OpV::LineBreakV);
    lemma_counts_prelude(t);
    lemma_counts_singleton(footer_op_abs(t, st.slides.len()));
    let closed = st.ops + seq![footer_op_abs(t, st.slides.len())];
    lemma_counts_concat(st.ops, seq![footer_op_abs(t, st.slides.len())]);
    match e {
        MarkdownElement::FrontMatter(_) => {},
        MarkdownElement::SetexHeading { text } => {
            lemma_counts_slide_title(t, text@);
            lemma_counts_concat(st.ops, slide_title_ops(t, text@));
        },
        MarkdownElement::Heading { level, text } => {
            lemma_counts_heading(t, level, text@);
            lemma_counts_concat(st.ops, heading_ops(t, level, text@));
            lemma_counts_concat(st.ops + heading_ops(t, level, text@), seq![OpV::LineBreakV]);
        },
        MarkdownElement::Paragraph(els) => {
            lemma_counts_paragraph(t, els@);
            lemma_counts_concat(st.ops, paragraph_ops(t, els@));
            lemma_counts_concat(st.ops + paragraph_ops(t, els@), seq![OpV::LineBreakV]);
        },
        MarkdownElement::List(items) => {
            lemma_counts_list(t, items@);
            lemma_counts_concat(st.ops, list_ops(t, items@));
            lemma_counts_concat(st.ops + list_ops(t, items@), seq![OpV::LineBreakV]);
        },
        MarkdownElement::Code(c) => {
            let hp: nat = match t.code.padding_horizontal {
                Some(n) => n as nat,
                None => 0,
            };
            let vp: nat = match t.code.padding_vertical {
                Some(n) => n as nat,
                None => 0,
            };
            let padded = padded_code(c.contents@, hp, vp);
            let block = sat_cap(max_line_width(lines_of(padded)) + hp);
            lemma_counts_code_lines(t, lines_of(padded), block);
            lemma_counts_concat(st.ops, code_ops(t, c));
            lemma_counts_concat(st.ops + code_ops(t, c), seq![OpV::LineBreakV]);
        },
        MarkdownElement::Table(tb) => {
            lemma_counts_table(t, tb);
            lemma_counts_concat(st.ops, table_ops(t, tb));
            lemma_counts_concat(st.ops + table_ops(t, tb), seq![OpV::LineBreakV]);
        },
        MarkdownElement::ThematicBreak => {},
        MarkdownElement::Comment(c) => {
            match comment_of(c@) {
                Some(Comment::Pause) => {
                    let base = if st.last_is_list && st.ops.len() > 0 && st.ops.last()
                        is LineBreakV {
                        st.ops.drop_last()
                    } else {
                        st.ops
                    };
                    if st.last_is_list && st.ops.len() > 0 && st.ops.last() is LineBreakV {
                        assert(st.ops =~= st.ops.drop_last() + seq![st.ops.last()]);
                        lemma_counts_singleton(st.ops.last());
                        lemma_counts_concat(st.ops.drop_last(), seq![st.ops.last()]);
                    }
                    lemma_counts_singleton(footer_op_abs(t, st.slides.len()));
                    lemma_counts_concat(base, seq![footer_op_abs(t, st.slides.len())]);
                },
                Some(Comment::EndSlide) => {},
                None => {
                    lemma_counts_concat(st.ops, seq![OpV::LineBreakV]);
                },
            }
        },
        MarkdownElement::BlockQuote(lines) => {
            lemma_counts_quote(t, lines@);
            lemma_counts_concat(st.ops, quote_ops(t, lines@));
            lemma_counts_concat(st.ops + quote_ops(t, lines@), seq![OpV::LineBreakV]);
        },
        MarkdownElement::Image(path) => {
            lemma_counts_singleton(OpV::ImageV(path@));
            lemma_counts_concat(st.ops, seq![OpV::ImageV(path@)]);
            lemma_counts_concat(st.ops + seq![OpV::ImageV(path@)], seq![OpV::LineBreakV]);
        },
    }
}

/// A whole run of steps preserves the prelude-count invariant.
pub proof fn lemma_steps_counts(
    t: ThemeA,
    st: BuildStateA,
    els: Seq<MarkdownElement>,
    quote_free: bool,
)
    requires
        counts_ok(st, quote_free),
        quote_free ==> forall|i: int| 0 <= i < els.len() ==> !((#[trigger] els[i]) is BlockQuote),
    ensures
        counts_ok(steps(t, st, els), quote_free),
    decreases els.len(),
{
    if els.len() > 0 {
        lemma_step_counts(t, st, els[0], quote_free);
        assert(quote_free ==> forall|i: int|
            0 <= i < els.skip(1).len() ==> !((#[trigger] els.skip(1)[i]) is BlockQuote));
        lemma_steps_counts(t, step(t, st, els[0]), els.skip(1), quote_free);
    }
}

/// The state the build starts from satisfies the prelude-count invariant.
pub proof fn lemma_initial_counts(t: ThemeA, intro: Option<MetaA>, quote_free: bool)
    ensures
        counts_ok(initial_state(t, intro), quote_free),
{
    lemma_counts_prelude(t);
    match intro {
        None => {},
        Some(md) => {
            if md.wants_intro() {
                lemma_counts_intro(t, md);
                lemma_counts_concat(prelude_abs(t), intro_ops(t, md));
                lemma_counts_singleton(footer_op_abs(t, 0));
                lemma_counts_concat(
                    prelude_abs(t) + intro_ops(t, md),
                    seq![footer_op_abs(t, 0)],
                );
            }
        },
    }
}

/// The prelude invariant: every slide of a built presentation clears the
/// screen exactly once, and — when the document holds no block quote — sets
/// colors exactly once. (A block quote switches to the quote colors and
/// back, adding two more color changes to its slide.)
pub proof fn lemma_model_prelude_invariant(
    t: ThemeA,
    intro: Option<MetaA>,
    els: Seq<MarkdownElement>,
)
    ensures
        forall|i: int|
            0 <= i < build_model(t, intro, els).len() ==> clear_count(
                #[trigger] build_model(t, intro, els)[i],
            ) == 1,
        (forall|j: int| 0 <= j < els.len() ==> !((#[trigger] els[j]) is BlockQuote)) ==> forall|
            i: int,
        |
            0 <= i < build_model(t, intro, els).len() ==> set_colors_count(
                #[trigger] build_model(t, intro, els)[i],
            ) == 1,
{
    let fin = steps(t, initial_state(t, intro), els);
    lemma_initial_counts(t, intro, false);
    lemma_steps_counts(t, initial_state(t, intro), els, false);
    if fin.ops.len() > 0 {
        lemma_counts_singleton(footer_op_abs(t, fin.slides.len()));
        lemma_counts_concat(fin.ops, seq![footer_op_abs(t, fin.slides.len())]);
    }
    if forall|j: int| 0 <= j < els.len() ==> !((#[trigger] els[j]) is BlockQuote) {
        lemma_initial_counts(t, intro, true);
        lemma_steps_counts(t, initial_state(t, intro), els, true);
        if fin.ops.len() > 0 {
            lemma_counts_singleton(footer_op_abs(t, fin.slides.len()));
            lemma_counts_concat(fin.ops, seq![footer_op_abs(t, fin.slides.len())]);
        }
    }
}

/// Every slide of a built presentation ends with its footer operation, and
/// the footer's slide index is the slide's own position: `{current_slide}`
/// rendered 1-indexed therefore matches the physical slide.
pub open spec fn footers_ok(st: BuildStateA, t: ThemeA) -> bool {
    forall|i: int|
        0 <= i < st.slides.len() ==> (#[trigger] st.slides[i]).len() > 0 && st.slides[i].last()
            == footer_op_abs(t, i as nat)
}

/// One step preserves the footer-position invariant.
pub proof fn lemma_step_footers(t: ThemeA, st: BuildStateA, e: MarkdownElement)
    requires
        footers_ok(st, t),
    ensures
        footers_ok(step(t, st, e), t),
{
}

/// A whole run of steps preserves the footer-position invariant.
pub proof fn lemma_steps_footers(t: ThemeA, st: BuildStateA, els: Seq<MarkdownElement>)
    requires
        footers_ok(st, t),
    ensures
        footers_ok(steps(t, st, els), t),
    decreases els.len(),
{
    if els.len() > 0 {
        lemma_step_footers(t, st, els[0]);
        lemma_steps_footers(t, step(t, st, els[0]), els.skip(1));
    }
}

/// The footer-position law: slide `i` of a built presentation ends with the
/// deferred footer operation capturing index `i` and the theme's footer
/// style.
pub proof fn lemma_model_footer_positions(
    t: ThemeA,
    intro: Option<MetaA>,
    els: Seq<MarkdownElement>,
)
    ensures
        forall|i: int|
            0 <= i < build_model(t, intro, els).len() ==> (#[trigger] build_model(t, intro, els)[i]).len()
                > 0 && build_model(t, intro, els)[i].last() == footer_op_abs(t, i as nat),
{
    lemma_steps_footers(t, initial_state(t, intro), els);
}

/// Whether an element is a pause directive.
pub open spec fn is_pause(e: MarkdownElement) -> bool {
    e matches MarkdownElement::Comment(c) && comment_of(c@) == Some(Comment::Pause)
}

/// Whether an element leaves the logical slide open: anything but a
/// thematic break or an `end_slide` directive.
pub open spec fn keeps_slide_open(e: MarkdownElement) -> bool {
    &&& !(e is ThematicBreak)
    &&& (e matches MarkdownElement::Comment(c) ==> comment_of(c@) != Some(Comment::EndSlide))
}

/// How many pause directives a document holds.
pub open spec fn pause_count(els: Seq<MarkdownElement>) -> nat
    decreases els.len(),
{
    if els.len() == 0 {
        0
    } else {
        (if is_pause(els[0]) {
            1nat
        } else {
            0nat
        }) + pause_count(els.skip(1))
    }
}

/// A prefix of a program is a prefix of any extension of it.
pub proof fn lemma_prefix_extends(a: Seq<OpV>, b: Seq<OpV>, c: Seq<OpV>)
    requires
        a.is_prefix_of(b),
    ensures
        a.is_prefix_of(b + c),
{
    assert((b + c).take(a.len() as int) =~= b.take(a.len() as int));
}

/// A strictly shorter prefix survives dropping the last operation.
pub proof fn lemma_prefix_drop_last(a: Seq<OpV>, b: Seq<OpV>)
    requires
        a.is_prefix_of(b),
        a.len() < b.len(),
    ensures
        a.is_prefix_of(b.drop_last()),
{
    assert(b.drop_last().take(a.len() as int) =~= b.take(a.len() as int));
}

/// The incremental-reveal invariant: every completed slide's content (its
/// operations without the trailing footer) is a prefix of the in-progress
/// operations, contents grow along the slide order, and after a list the
/// contents are strictly shorter than the in-progress operations (so that
/// dropping the trailing break cannot cut into an earlier snapshot).
pub open spec fn pause_ok(st: BuildStateA) -> bool {
    &&& forall|i: int|
        0 <= i < st.slides.len() ==> (#[trigger] st.slides[i]).len() > 0 && st.slides[
            i
        ].drop_last().is_prefix_of(st.ops)
    &&& forall|i: int, j: int|
        0 <= i <= j < st.slides.len() ==> (#[trigger] st.slides[i]).drop_last().is_prefix_of(
            (#[trigger] st.slides[j]).drop_last(),
        )
    &&& (st.last_is_list ==> forall|i: int|
        0 <= i < st.slides.len() ==> (#[trigger] st.slides[i]).drop_last().len() < st.ops.len())
}

/// One slide-keeping step preserves the incremental-reveal invariant and
/// adds one slide exactly when the element is a pause.
pub proof fn lemma_step_pause(t: ThemeA, st: BuildStateA, e: MarkdownElement)
    requires
        pause_ok(st),
        keeps_slide_open(e),
    ensures
        pause_ok(step(t, st, e)),
        step(t, st, e).slides.len() == st.slides.len() + (if is_pause(e) {
            1int
        } else {
            0int
        }),
{
    let post = step(t, st, e);
    if is_pause(e) {
        let base = if st.last_is_list && st.ops.len() > 0 && st.ops.last() is LineBreakV {
            st.ops.drop_last()
        } else {
            st.ops
        };
        let closed = base + seq![footer_op_abs(t, st.slides.len())];
        assert(closed.drop_last() =~= base);
        assert forall|i: int| 0 <= i < st.slides.len() implies st.slides[
            i
        ].drop_last().is_prefix_of(base) by {
            if st.last_is_list && st.ops.len() > 0 && st.ops.last() is LineBreakV {
                lemma_prefix_drop_last(st.slides[i].drop_last(), st.ops);
            }
        }
        assert(base.is_prefix_of(base));
        assert(pause_ok(post));
    } else {
        let appended = post.ops;
        assert forall|i: int| 0 <= i < st.slides.len() implies st.slides[
            i
        ].drop_last().is_prefix_of(appended) by {
            assert(appended =~= st.ops + appended.skip(st.ops.len() as int));
            lemma_prefix_extends(st.slides[i].drop_last(), st.ops, appended.skip(
                st.ops.len() as int,
            ));
        }
        assert(pause_ok(post));
    }
}

/// A run of slide-keeping steps preserves the invariant and adds one slide
/// per pause.
pub proof fn lemma_steps_pause(t: ThemeA, st: BuildStateA, els: Seq<MarkdownElement>)
    requires
        pause_ok(st),
        forall|i: int| 0 <= i < els.len() ==> keeps_slide_open(#[trigger] els[i]),
    ensures
        pause_ok(steps(t, st, els)),
        steps(t, st, els).slides.len() == st.slides.len() + pause_count(els),
    decreases els.len(),
{
    if els.len() > 0 {
        lemma_step_pause(t, st, els[0]);
        assert(forall|i: int|
            0 <= i < els.skip(1).len() ==> keeps_slide_open(#[trigger] els.skip(1)[i]));
        lemma_steps_pause(t, step(t, st, els[0]), els.skip(1));
    }
}

/// The in-progress operations never run dry: at least one operation is
/// always there (the prelude to begin with), and at least two right after a
/// list, so that a pause dropping the trailing break still leaves the
/// earlier snapshots intact.
pub open spec fn ops_nonempty_ok(st: BuildStateA) -> bool {
    st.ops.len() >= 1 && (st.last_is_list ==> st.ops.len() >= 2)
}

/// One step preserves the non-emptiness invariant.
pub proof fn lemma_step_nonempty(t: ThemeA, st: BuildStateA, e: MarkdownElement)
    requires
        ops_nonempty_ok(st),
    ensures
        ops_nonempty_ok(step(t, st, e)),
{
}

/// A run of steps preserves the non-emptiness invariant.
pub proof fn lemma_steps_nonempty(t: ThemeA, st: BuildStateA, els: Seq<MarkdownElement>)
    requires
        ops_nonempty_ok(st),
    ensures
        ops_nonempty_ok(steps(t, st, els)),
    decreases els.len(),
{
    if els.len() > 0 {
        lemma_step_nonempty(t, st, els[0]);
        lemma_steps_nonempty(t, step(t, st, els[0]), els.skip(1));
    }
}

/// The incremental-reveal law: a document of slide-keeping elements with
/// `k` pause directives builds into `k + 1` physical slides, and the
/// contents of the physical slides (their operations without the trailing
/// footer) form a chain of prefixes — each slide extends every earlier one.
pub proof fn lemma_model_pause_prefixes(t: ThemeA, els: Seq<MarkdownElement>)
    requires
        forall|i: int| 0 <= i < els.len() ==> keeps_slide_open(#[trigger] els[i]),
    ensures
        build_model(t, None, els).len() == pause_count(els) + 1,
        forall|i: int, j: int|
            0 <= i <= j < build_model(t, None, els).len() ==> (#[trigger] build_model(
                t,
                None,
                els,
            )[i]).drop_last().is_prefix_of((#[trigger] build_model(t, None, els)[j]).drop_last()),
{
    let init = initial_state(t, None);
    assert(pause_ok(init));
    lemma_steps_pause(t, init, els);
    lemma_steps_nonempty(t, init, els);
    let fin = steps(t, init, els);
    let closed = fin.ops + seq![footer_op_abs(t, fin.slides.len())];
    assert(closed.drop_last() =~= fin.ops);
    let model = build_model(t, None, els);
    assert(model =~= fin.slides.push(closed));
    assert forall|i: int, j: int| 0 <= i <= j < model.len() implies (#[trigger] model[
        i
    ]).drop_last().is_prefix_of((#[trigger] model[j]).drop_last()) by {
        if j < fin.slides.len() {
            assert(model[i] == fin.slides[i]);
            assert(model[j] == fin.slides[j]);
        } else {
            assert(model[j] == closed);
            if i < fin.slides.len() {
                assert(model[i] == fin.slides[i]);
                assert(fin.slides[i].drop_last().is_prefix_of(fin.ops));
            } else {
                assert(model[i] == closed);
                assert(fin.ops.is_prefix_of(fin.ops));
            }
        }
    }
}

/// Whether an operation has a visible screen effect: everything except the
/// color switches, the screen clear and the cursor jumps.
pub open spec fn op_visible(op: OpV) -> bool {
    !(op is SetColorsV || op is ClearScreenV || op is JumpToVerticalCenterV
        || op is JumpToSlideBottomV || op is JumpToWindowBottomV)
}

/// The subsequence of operations with visible screen effect.
pub open spec fn visible_ops(s: Seq<OpV>) -> Seq<OpV>
    decreases s.len(),
{
    if s.len() == 0 {
        Seq::<OpV>::empty()
    } else {
        (if op_visible(s[0]) {
            seq![s[0]]
        } else {
            Seq::<OpV>::empty()
        }) + visible_ops(s.skip(1))
    }
}

/// Visibility filters distribute over concatenation.
pub proof fn lemma_visible_concat(a: Seq<OpV>, b: Seq<OpV>)
    ensures
        visible_ops(a + b) == visible_ops(a) + visible_ops(b),
    decreases a.len(),
{
    if a.len() == 0 {
        assert(a + b =~= b);
        assert(visible_ops(a) + visible_ops(b) =~= visible_ops(b));
    } else {
        assert((a + b).skip(1) =~= a.skip(1) + b);
        assert((a + b)[0] == a[0]);
        lemma_visible_concat(a.skip(1), b);
        assert(visible_ops(a + b) =~= visible_ops(a) + visible_ops(b));
    }
}

/// The visible part of a one-operation program.
pub proof fn lemma_visible_singleton(op: OpV)
    ensures
        visible_ops(seq![op]) == (if op_visible(op) {
            seq![op]
        } else {
            Seq::<OpV>::empty()
        }),
{
    assert(seq![op].skip(1) =~= Seq::<OpV>::empty());
    assert(visible_ops(Seq::<OpV>::empty()) =~= Seq::<OpV>::empty());
    assert(visible_ops(seq![op]) =~= (if op_visible(op) {
        seq![op]
    } else {
        Seq::<OpV>::empty()
    }));
}

/// The prelude's only visible operation is its line break.
pub proof fn lemma_visible_prelude(t: ThemeA)
    ensures
        visible_ops(prelude_abs(t)) == seq![OpV::LineBreakV],
{
    assert(prelude_abs(t) =~= seq![OpV::SetColorsV(t.default_style.colors)] + seq![
        OpV::ClearScreenV,
    ] + seq![OpV::LineBreakV]);
    lemma_visible_singleton(OpV::SetColorsV(t.default_style.colors));
    lemma_visible_singleton(OpV::ClearScreenV);
    lemma_visible_singleton(OpV::LineBreakV);
    lemma_visible_concat(seq![OpV::SetColorsV(t.default_style.colors)], seq![OpV::ClearScreenV]);
    lemma_visible_concat(
        seq![OpV::SetColorsV(t.default_style.colors)] + seq![OpV::ClearScreenV],
        seq![OpV::LineBreakV],
    );
    assert(visible_ops(prelude_abs(t)) =~= seq![OpV::LineBreakV]);
}

/// The opening-shape property of one program: its first visible operation
/// is a line break and its second, if any, is not.
pub open spec fn p2_shape(v: Seq<OpV>) -> bool {
    v.len() >= 1 && v[0] is LineBreakV && (v.len() >= 2 ==> !(v[1] is LineBreakV))
}

/// The elements over which the opening-shape law holds: headings with at
/// least one chunk of text, and recognized directive comments. (An empty
/// heading or an unrecognized comment contributes a bare line break, and a
/// slide title may open with configured padding breaks.)
pub open spec fn p2_element(e: MarkdownElement) -> bool {
    match e {
        MarkdownElement::Heading { level, text } => text@.len() > 0,
        MarkdownElement::Comment(c) => comment_of(c@) is Some,
        _ => false,
    }
}

/// The opening-shape invariant over the build state.
pub open spec fn p2_ok(st: BuildStateA) -> bool {
    &&& p2_shape(visible_ops(st.ops))
    &&& forall|i: int| 0 <= i < st.slides.len() ==> p2_shape(visible_ops(#[trigger] st.slides[i]))
    &&& !st.last_is_list
}

/// A heading with text makes its line visible first: its emission's visible
/// part is the text line followed by one break.
pub proof fn lemma_visible_heading(t: ThemeA, level: u8, text: Seq<ChunkV>)
    requires
        text.len() > 0,
    ensures
        visible_ops(heading_ops(t, level, text)).len() >= 1,
        visible_ops(heading_ops(t, level, text))[0] is TextLineV,
{
    let style = heading_style_for(t, level);
    let base = match style.prefix {
        Some(p) => seq![ChunkV { text: p.push(' '), style: TextStyle::plain_spec() }] + text,
        None => text,
    };
    let chunks = applied_style(base, bold_with(style.colors));
    let line = text_line_ops(t, chunks, element_type_for(level));
    assert(chunks.len() > 0);
    assert(line =~= seq![line[0]]);
    lemma_visible_singleton(line[0]);
    lemma_visible_singleton(OpV::LineBreakV);
    lemma_visible_concat(line, seq![OpV::LineBreakV]);
}

/// One step over a law element preserves the opening-shape invariant.
pub proof fn lemma_step_p2(t: ThemeA, st: BuildStateA, e: MarkdownElement)
    requires
        p2_ok(st),
        p2_element(e),
    ensures
        p2_ok(step(t, st, e)),
{
    lemma_visible_prelude(t);
    lemma_visible_singleton(OpV::LineBreakV);
    lemma_visible_singleton(footer_op_abs(t, st.slides.len()));
    match e {
        MarkdownElement::Heading { level, text } => {
            lemma_visible_heading(t, level, text@);
            lemma_visible_concat(st.ops, heading_ops(t, level, text@));
            lemma_visible_concat(st.ops + heading_ops(t, level, text@), seq![OpV::LineBreakV]);
        },
        MarkdownElement::Comment(c) => {
            match comment_of(c@) {
                Some(Comment::Pause) => {
                    lemma_visible_concat(st.ops, seq![footer_op_abs(t, st.slides.len())]);
                },
                Some(Comment::EndSlide) => {
                    lemma_visible_concat(st.ops, seq![footer_op_abs(t, st.slides.len())]);
                },
                None => {},
            }
        },
        _ => {},
    }
}

/// A run of law elements preserves the opening-shape invariant.
pub proof fn lemma_steps_p2(t: ThemeA, st: BuildStateA, els: Seq<MarkdownElement>)
    requires
        p2_ok(st),
        forall|i: int| 0 <= i < els.len() ==> p2_element(#[trigger] els[i]),
    ensures
        p2_ok(steps(t, st, els)),
    decreases els.len(),
{
    if els.len() > 0 {
        lemma_step_p2(t, st, els[0]);
        lemma_steps_p2(t, step(t, st, els[0]), els.skip(1));
    }
}

/// The opening-shape law: in a document of non-empty headings and
/// recognized directives, every slide's first visible operation is a line
/// break and its second is not a line break.
pub proof fn lemma_model_slides_open_with_one_break(t: ThemeA, els: Seq<MarkdownElement>)
    requires
        forall|i: int| 0 <= i < els.len() ==> p2_element(#[trigger] els[i]),
    ensures
        forall|i: int|
            0 <= i < build_model(t, None, els).len() ==> p2_shape(
                visible_ops(#[trigger] build_model(t, None, els)[i]),
            ),
{
    let init = initial_state(t, None);
    lemma_visible_prelude(t);
    assert(p2_ok(init));
    lemma_steps_p2(t, init, els);
    let fin = steps(t, init, els);
    if fin.ops.len() > 0 {
        lemma_visible_singleton(footer_op_abs(t, fin.slides.len()));
        lemma_visible_concat(fin.ops, seq![footer_op_abs(t, fin.slides.len())]);
    }
}

/// A copy of an optional heading prefix.
fn clone_prefix(o: &Option<String>) -> (r: Option<String>)
    ensures
        crate::theme::opt_str_abs(r) == crate::theme::opt_str_abs(*o),
{
    match o {
        Some(s) => Some(s.clone()),
        None => None,
    }
}

} // verus!
