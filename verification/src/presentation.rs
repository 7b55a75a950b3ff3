//! The render-operation IR, slides, and the presentation container.

use vstd::prelude::*;
use crate::strutil::{decimal, replace_all, replaced, repeat_char, u64_to_string};
use crate::style::{Colors, TextStyle};
use crate::text::{ChunkV, StyledText, WeightedLine, WeightedText};
use crate::theme::{Alignment, FooterStyle, FooterStyleA};
use crate::resources::Image;
use crate::width::{char_display_width, display_width, measure_str};

verus! {

/// Live terminal dimensions at render time.
#[derive(Clone, Copy, Debug)]
pub struct WindowSize {
    pub rows: u16,
    pub columns: u16,
    pub width: u16,
    pub height: u16,
}

/// Session state shared by every footer operation: the author from the
/// front matter, and the slide count written once when the build finishes.
#[derive(Debug)]
pub struct FooterContext {
    pub total_slides: usize,
    pub author: String,
}

/// The mathematical value of the footer context.
#[verifier::ext_equal]
pub struct FooterContextV {
    pub total_slides: nat,
    pub author: Seq<char>,
}

impl View for FooterContext {
    type V = FooterContextV;

    open spec fn view(&self) -> FooterContextV {
        FooterContextV { total_slides: self.total_slides as nat, author: self.author@ }
    }
}

impl Clone for FooterContext {
    fn clone(&self) -> (r: Self)
        ensures
            r@ == self@,
    {
        FooterContext { total_slides: self.total_slides, author: self.author.clone() }
    }
}

/// The deferred footer operation: it captures the footer style and the index
/// of the slide it closes, and produces operations only at render time, when
/// the context and the window dimensions are known.
#[derive(Debug)]
pub struct FooterGenerator {
    pub current_slide: usize,
    pub style: FooterStyle,
}

impl Clone for FooterGenerator {
    fn clone(&self) -> (r: Self)
        ensures
            r.current_slide == self.current_slide,
            r.style@ == self.style@,
    {
        FooterGenerator { current_slide: self.current_slide, style: self.style.clone() }
    }
}

/// The mathematical value of one render operation.
#[verifier::ext_equal]
pub enum OpV {
    SetColorsV(Colors),
    ClearScreenV,
    TextLineV { line: Seq<ChunkV>, alignment: Alignment },
    PreformattedLineV {
        text: Seq<char>,
        unformatted_length: nat,
        block_length: nat,
        alignment: Alignment,
    },
    LineBreakV,
    SeparatorV,
    ImageV(Seq<char>),
    JumpToVerticalCenterV,
    JumpToSlideBottomV,
    JumpToWindowBottomV,
    DynamicV { current_slide: nat, style: FooterStyleA },
}

/// One primitive terminal instruction in a slide's program.
#[derive(Debug)]
pub enum RenderOperation {
    SetColors(Colors),
    ClearScreen,
    RenderTextLine { line: WeightedLine, alignment: Alignment },
    RenderPreformattedLine {
        text: String,
        unformatted_length: usize,
        block_length: usize,
        alignment: Alignment,
    },
    RenderLineBreak,
    RenderSeparator,
    RenderImage(Image),
    JumpToVerticalCenter,
    JumpToSlideBottom,
    JumpToWindowBottom,
    RenderDynamic(FooterGenerator),
}

impl View for RenderOperation {
    type V = OpV;

    open spec fn view(&self) -> OpV {
        match self {
            RenderOperation::SetColors(c) => OpV::SetColorsV(*c),
            RenderOperation::ClearScreen => OpV::ClearScreenV,
            RenderOperation::RenderTextLine { line, alignment } => OpV::TextLineV {
                line: line@,
                alignment: *alignment,
            },
            RenderOperation::RenderPreformattedLine {
                text,
                unformatted_length,
                block_length,
                alignment,
            } => OpV::PreformattedLineV {
                text: text@,
                unformatted_length: *unformatted_length as nat,
                block_length: *block_length as nat,
                alignment: *alignment,
            },
            RenderOperation::RenderLineBreak => OpV::LineBreakV,
            RenderOperation::RenderSeparator => OpV::SeparatorV,
            RenderOperation::RenderImage(img) => OpV::ImageV(img@),
            RenderOperation::JumpToVerticalCenter => OpV::JumpToVerticalCenterV,
            RenderOperation::JumpToSlideBottom => OpV::JumpToSlideBottomV,
            RenderOperation::JumpToWindowBottom => OpV::JumpToWindowBottomV,
            RenderOperation::RenderDynamic(g) => OpV::DynamicV {
                current_slide: g.current_slide as nat,
                style: g.style@,
            },
        }
    }
}

impl Clone for RenderOperation {
    fn clone(&self) -> (r: Self)
        ensures
            r@ == self@,
    {
        match self {
            RenderOperation::SetColors(c) => RenderOperation::SetColors(*c),
            RenderOperation::ClearScreen => RenderOperation::ClearScreen,
            RenderOperation::RenderTextLine { line, alignment } => {
                RenderOperation::RenderTextLine { line: line.clone(), alignment: *alignment }
            },
            RenderOperation::RenderPreformattedLine {
                text,
                unformatted_length,
                block_length,
                alignment,
            } => RenderOperation::RenderPreformattedLine {
                text: text.clone(),
                unformatted_length: *unformatted_length,
                block_length: *block_length,
                alignment: *alignment,
            },
            RenderOperation::RenderLineBreak => RenderOperation::RenderLineBreak,
            RenderOperation::RenderSeparator => RenderOperation::RenderSeparator,
            RenderOperation::RenderImage(img) => RenderOperation::RenderImage(img.clone()),
            RenderOperation::JumpToVerticalCenter => RenderOperation::JumpToVerticalCenter,
            RenderOperation::JumpToSlideBottom => RenderOperation::JumpToSlideBottom,
            RenderOperation::JumpToWindowBottom => RenderOperation::JumpToWindowBottom,
            RenderOperation::RenderDynamic(g) => RenderOperation::RenderDynamic(g.clone()),
        }
    }
}

/// The mathematical values of a sequence of operations.
pub open spec fn ops_abs(ops: Seq<RenderOperation>) -> Seq<OpV> {
    ops.map_values(|o: RenderOperation| o@)
}

/// A copy of an operation vector, preserving the operations' values.
pub fn clone_ops(ops: &Vec<RenderOperation>) -> (r: Vec<RenderOperation>)
    ensures
        ops_abs(r@) == ops_abs(ops@),
{
    let mut r: Vec<RenderOperation> = Vec::new();
    let mut i: usize = 0;
    while i < ops.len()
        invariant
            i <= ops@.len(),
            r@.len() == i,
            forall|j: int| 0 <= j < i ==> r@[j]@ == ops@[j]@,
        decreases ops@.len() - i,
    {
        r.push(ops[i].clone());
        i = i + 1;
    }
    proof {
        assert(ops_abs(r@) =~= ops_abs(ops@));
    }
    r
}

/// An ordered program of render operations: the unit of display.
#[derive(Debug)]
pub struct Slide {
    pub render_operations: Vec<RenderOperation>,
}

impl View for Slide {
    type V = Seq<OpV>;

    open spec fn view(&self) -> Seq<OpV> {
        ops_abs(self.render_operations@)
    }
}

/// The mathematical values of a sequence of slides.
pub open spec fn slides_abs(slides: Seq<Slide>) -> Seq<Seq<OpV>> {
    slides.map_values(|s: Slide| s@)
}

/// An ordered sequence of slides plus a bounds-checked cursor.
#[derive(Debug)]
pub struct Presentation {
    pub slides: Vec<Slide>,
    pub footer_context: FooterContext,
    pub current_index: usize,
}

impl Presentation {
    /// The cursor stays inside `[0, len)`.
    pub open spec fn wf(&self) -> bool {
        self.slides@.len() > 0 && (self.current_index as int) < self.slides@.len()
    }

    /// The current slide index.
    pub open spec fn current_index_spec(&self) -> int {
        self.current_index as int
    }

    /// A presentation positioned on its first slide.
    pub fn new(slides: Vec<Slide>, footer_context: FooterContext) -> (r: Presentation)
        requires
            slides@.len() > 0,
        ensures
            r.wf(),
            r.slides@ == slides@,
            r.footer_context == footer_context,
            r.current_index_spec() == 0,
    {
        Presentation { slides, footer_context, current_index: 0 }
    }

    /// The slide the cursor is on.
    pub fn current_slide(&self) -> (r: &Slide)
        requires
            self.wf(),
        ensures
            r == &self.slides@[self.current_index_spec()],
    {
        &self.slides[self.current_index]
    }

    /// The index of the slide the cursor is on.
    pub fn current_slide_index(&self) -> (r: usize)
        ensures
            r == self.current_index_spec(),
    {
        self.current_index
    }

    /// How many slides the presentation has.
    pub fn total_slides(&self) -> (r: usize)
        ensures
            r == self.slides@.len(),
    {
        self.slides.len()
    }

    /// Advance to the next slide, stopping at the last one.
    pub fn jump_next_slide(&mut self)
        requires
            old(self).wf(),
        ensures
            final(self).wf(),
            final(self).slides@ == old(self).slides@,
            final(self).footer_context == old(self).footer_context,
            final(self).current_index_spec() == if old(self).current_index_spec() + 1
                < old(self).slides@.len() {
                old(self).current_index_spec() + 1
            } else {
                old(self).current_index_spec()
            },
    {
        if self.current_index < self.slides.len() - 1 {
            self.current_index = self.current_index + 1;
        }
    }

    /// Go back to the previous slide, stopping at the first one.
    pub fn jump_previous_slide(&mut self)
        requires
            old(self).wf(),
        ensures
            final(self).wf(),
            final(self).slides@ == old(self).slides@,
            final(self).footer_context == old(self).footer_context,
            final(self).current_index_spec() == if old(self).current_index_spec() > 0 {
                old(self).current_index_spec() - 1
            } else {
                0
            },
    {
        if self.current_index > 0 {
            self.current_index = self.current_index - 1;
        }
    }
}

/// Where a line starts horizontally: left alignment indents by the margin;
/// right alignment leaves the margin free at the right edge; centering
/// splits the leftover space, falling back to the minimum margin when the
/// window is narrower than the minimum size plus both margins.
pub open spec fn starting_column_spec(alignment: Alignment, line_width: nat, columns: nat) -> nat {
    match alignment {
        Alignment::Left { margin } => margin as nat,
        Alignment::Right { margin } => if columns >= line_width + margin {
            (columns - line_width - margin) as nat
        } else {
            0
        },
        Alignment::Center { minimum_size, minimum_margin } => if columns < minimum_size + 2
            * minimum_margin {
            minimum_margin as nat
        } else if columns >= line_width {
            ((columns - line_width) / 2) as nat
        } else {
            0
        },
    }
}

/// Compute where a line of the given display width starts in a window of
/// the given width.
pub fn starting_column(alignment: &Alignment, line_width: usize, columns: usize) -> (r: usize)
    ensures
        r == starting_column_spec(*alignment, line_width as nat, columns as nat),
{
    match alignment {
        Alignment::Left { margin } => *margin,
        Alignment::Right { margin } => {
            if columns >= line_width && columns - line_width >= *margin {
                columns - line_width - *margin
            } else {
                0
            }
        },
        Alignment::Center { minimum_size, minimum_margin } => {
            let too_narrow = *minimum_margin > usize::MAX / 2 || *minimum_size > usize::MAX - 2
                * *minimum_margin || columns < *minimum_size + 2 * *minimum_margin;
            if too_narrow {
                *minimum_margin
            } else if columns >= line_width {
                (columns - line_width) / 2
            } else {
                0
            }
        },
    }
}

/// The fixed error-display program: independent of any theme or slide, so
/// that build failures can always be reported. Red on black, a centered
/// bold heading, two breaks, and the centered message.
pub open spec fn error_ops_abs(message: Seq<char>) -> Seq<OpV> {
    let alignment = Alignment::Center { minimum_size: 0, minimum_margin: 5 };
    let colors = Colors {
        foreground: Some(crate::style::Color::Red),
        background: Some(crate::style::Color::Black),
    };
    seq![
        OpV::ClearScreenV,
        OpV::SetColorsV(colors),
        OpV::JumpToVerticalCenterV,
        OpV::TextLineV {
            line: seq![
                ChunkV {
                    text: "Error loading presentation"@,
                    style: TextStyle {
                        bold: true,
                        italics: false,
                        code: false,
                        colors: Colors { foreground: None, background: None },
                    },
                },
                ChunkV { text: ": "@, style: TextStyle::plain_spec() },
            ],
            alignment,
        },
        OpV::LineBreakV,
        OpV::LineBreakV,
        OpV::TextLineV {
            line: seq![ChunkV { text: message, style: TextStyle::plain_spec() }],
            alignment,
        },
    ]
}

/// The operations that display a build error, independent of any slide.
pub fn error_operations(message: &str) -> (r: Vec<RenderOperation>)
    ensures
        ops_abs(r@) == error_ops_abs(message@),
{
    let alignment = Alignment::Center { minimum_size: 0, minimum_margin: 5 };
    let colors = Colors {
        foreground: Some(crate::style::Color::Red),
        background: Some(crate::style::Color::Black),
    };
    let mut heading: Vec<WeightedText> = Vec::new();
    heading.push(
        WeightedText::new(
            StyledText::new(
                String::from_str("Error loading presentation"),
                TextStyle::plain().bold(),
            ),
        ),
    );
    heading.push(WeightedText::new(StyledText::new(String::from_str(": "), TextStyle::plain())));
    let mut error_line: Vec<WeightedText> = Vec::new();
    error_line.push(
        WeightedText::new(StyledText::new(String::from_str(message), TextStyle::plain())),
    );
    let mut ops: Vec<RenderOperation> = Vec::new();
    ops.push(RenderOperation::ClearScreen);
    ops.push(RenderOperation::SetColors(colors));
    ops.push(RenderOperation::JumpToVerticalCenter);
    ops.push(RenderOperation::RenderTextLine { line: WeightedLine::new(heading), alignment });
    ops.push(RenderOperation::RenderLineBreak);
    ops.push(RenderOperation::RenderLineBreak);
    ops.push(RenderOperation::RenderTextLine { line: WeightedLine::new(error_line), alignment });
    proof {
        assert(ops_abs(ops@) =~~= error_ops_abs(message@));
    }
    ops
}

/// The plain style carrying the given colors.
pub open spec fn plain_with_colors(colors: Colors) -> TextStyle {
    TextStyle { bold: false, italics: false, code: false, colors }
}

/// A footer template with `{current_slide}`, `{total_slides}` and
/// `{author}` substituted.
pub open spec fn rendered_template(
    template: Seq<char>,
    current_slide: Seq<char>,
    ctx: FooterContextV,
) -> Seq<char> {
    replaced(
        replaced(
            replaced(template, "{current_slide}"@, current_slide),
            "{total_slides}"@,
            decimal(ctx.total_slides),
        ),
        "{author}"@,
        ctx.author,
    )
}

/// The operations a footer of the given style produces for physical slide
/// `current` (0-indexed), under a finalized context and the given window
/// width.
pub open spec fn footer_ops_abs(
    style: FooterStyleA,
    current: nat,
    ctx: FooterContextV,
    columns: u16,
) -> Seq<OpV> {
    match style {
        FooterStyleA::TemplateA { left, right, colors } => {
            let cur = decimal(current + 1);
            let lops = match left {
                Some(l) => seq![
                    OpV::JumpToWindowBottomV,
                    OpV::TextLineV {
                        line: seq![
                            ChunkV {
                                text: rendered_template(l, cur, ctx),
                                style: plain_with_colors(colors),
                            },
                        ],
                        alignment: Alignment::Left { margin: 1 },
                    },
                ],
                None => Seq::<OpV>::empty(),
            };
            let rops = match right {
                Some(r) => seq![
                    OpV::JumpToWindowBottomV,
                    OpV::TextLineV {
                        line: seq![
                            ChunkV {
                                text: rendered_template(r, cur, ctx),
                                style: plain_with_colors(colors),
                            },
                        ],
                        alignment: Alignment::Right { margin: 1 },
                    },
                ],
                None => Seq::<OpV>::empty(),
            };
            lops + rops
        },
        FooterStyleA::ProgressBarA { character, colors } => {
            let c = match character {
                Some(ch) => ch,
                None => '\u{2588}',
            };
            let w = char_display_width(c);
            if w == 0 || ctx.total_slides == 0 {
                Seq::<OpV>::empty()
            } else {
                let total_columns = (columns as nat) / w;
                let bar_len = (((total_columns * (current + 1) + ctx.total_slides - 1) as int)
                    / (ctx.total_slides as int)) as nat;
                seq![
                    OpV::JumpToWindowBottomV,
                    OpV::TextLineV {
                        line: seq![
                            ChunkV {
                                text: Seq::new(bar_len, |i: int| c),
                                style: plain_with_colors(colors),
                            },
                        ],
                        alignment: Alignment::Left { margin: 0 },
                    },
                ]
            }
        },
        FooterStyleA::EmptyA => Seq::<OpV>::empty(),
    }
}

impl FooterGenerator {
    /// Substitute the slide numbers and the author into a footer template.
    pub fn render_template(
        template: &str,
        current_slide: &str,
        context: &FooterContext,
        colors: Colors,
    ) -> (r: WeightedText)
        ensures
            r@ == (ChunkV {
                text: rendered_template(template@, current_slide@, context@),
                style: plain_with_colors(colors),
            }),
            r.wf(),
    {
        proof {
            reveal_strlit("{current_slide}");
            reveal_strlit("{total_slides}");
            reveal_strlit("{author}");
        }
        let total_str = u64_to_string(context.total_slides as u64);
        let s1 = replace_all(template, "{current_slide}", current_slide);
        let s2 = replace_all(s1.as_str(), "{total_slides}", total_str.as_str());
        let s3 = replace_all(s2.as_str(), "{author}", context.author.as_str());
        WeightedText::new(StyledText::new(s3, TextStyle::plain().colors(colors)))
    }

    /// Resolve this footer against the finalized context and the live window
    /// dimensions.
    pub fn as_render_operations(&self, context: &FooterContext, dimensions: &WindowSize) -> (r:
        Vec<RenderOperation>)
        requires
            self.current_slide < context.total_slides,
        ensures
            ops_abs(r@) == footer_ops_abs(
                self.style@,
                self.current_slide as nat,
                context@,
                dimensions.columns,
            ),
    {
        match &self.style {
            FooterStyle::Template { left, right, colors } => {
                let cur_str = u64_to_string((self.current_slide + 1) as u64);
                let mut ops: Vec<RenderOperation> = Vec::new();
                if let Some(l) = left {
                    let text = FooterGenerator::render_template(
                        l.as_str(),
                        cur_str.as_str(),
                        context,
                        *colors,
                    );
                    let mut texts: Vec<WeightedText> = Vec::new();
                    texts.push(text);
                    ops.push(RenderOperation::JumpToWindowBottom);
                    ops.push(
                        RenderOperation::RenderTextLine {
                            line: WeightedLine::new(texts),
                            alignment: Alignment::Left { margin: 1 },
                        },
                    );
                }
                if let Some(rt) = right {
                    let text = FooterGenerator::render_template(
                        rt.as_str(),
                        cur_str.as_str(),
                        context,
                        *colors,
                    );
                    let mut texts: Vec<WeightedText> = Vec::new();
                    texts.push(text);
                    ops.push(RenderOperation::JumpToWindowBottom);
                    ops.push(
                        RenderOperation::RenderTextLine {
                            line: WeightedLine::new(texts),
                            alignment: Alignment::Right { margin: 1 },
                        },
                    );
                }
                proof {
                    assert(ops_abs(ops@) =~~= footer_ops_abs(
                        self.style@,
                        self.current_slide as nat,
                        context@,
                        dimensions.columns,
                    ));
                }
                ops
            },
            FooterStyle::ProgressBar { character, colors } => {
                let c = match character {
                    Some(ch) => *ch,
                    None => '\u{2588}',
                };
                let mut glyph = String::new();
                crate::strutil::push_char(&mut glyph, c);
                proof {
                    assert(glyph@ =~= seq![c]);
                }
                let w = measure_str(glyph.as_str());
                let mut ops: Vec<RenderOperation> = Vec::new();
                if w > 0 {
                    let total_columns: usize = (dimensions.columns as usize) / w;
                    let total = context.total_slides;
                    let tc128: u128 = total_columns as u128;
                    let cur128: u128 = (self.current_slide as u128) + 1;
                    let total128: u128 = total as u128;
                    proof {
                        vstd::arithmetic::mul::lemma_mul_upper_bound(
                            tc128 as int,
                            0xffff,
                            cur128 as int,
                            0x1_0000_0000_0000_0000,
                        );
                    }
                    let num: u128 = tc128 * cur128 + (total128 - 1);
                    let bl: u128 = num / total128;
                    proof {
                        assert(bl <= tc128) by (nonlinear_arith)
                            requires
                                num == tc128 * cur128 + (total128 - 1),
                                bl == num / total128,
                                cur128 <= total128,
                                total128 >= 1,
                                tc128 >= 0,
                        ;
                    }
                    let bar_len: usize = bl as usize;
                    let bar = repeat_char(c, bar_len);
                    let text = WeightedText::new(
                        StyledText::new(bar, TextStyle::plain().colors(*colors)),
                    );
                    let mut texts: Vec<WeightedText> = Vec::new();
                    texts.push(text);
                    ops.push(RenderOperation::JumpToWindowBottom);
                    ops.push(
                        RenderOperation::RenderTextLine {
                            line: WeightedLine::new(texts),
                            alignment: Alignment::Left { margin: 0 },
                        },
                    );
                }
                proof {
                    assert(ops_abs(ops@) =~~= footer_ops_abs(
                        self.style@,
                        self.current_slide as nat,
                        context@,
                        dimensions.columns,
                    ));
                }
                ops
            },
            FooterStyle::Empty => {
                let ops: Vec<RenderOperation> = Vec::new();
                proof {
                    assert(ops_abs(ops@) =~~= footer_ops_abs(
                        self.style@,
                        self.current_slide as nat,
                        context@,
                        dimensions.columns,
                    ));
                }
                ops
            },
        }
    }
}

} // verus!
