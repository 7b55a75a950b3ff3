//! The styled text model: chunks, lines and their render-ready weighted
//! forms.

use vstd::prelude::*;
use vstd::string::*;
use crate::style::TextStyle;
use crate::width::{display_width, measure_str};

verus! {

/// The mathematical value of one styled chunk: its characters and its style.
#[verifier::ext_equal]
pub struct ChunkV {
    pub text: Seq<char>,
    pub style: TextStyle,
}

/// A string plus the style it renders with.
#[derive(Debug)]
pub struct StyledText {
    pub text: String,
    pub style: TextStyle,
}

impl View for StyledText {
    type V = ChunkV;

    open spec fn view(&self) -> ChunkV {
        ChunkV { text: self.text@, style: self.style }
    }
}

impl Clone for StyledText {
    fn clone(&self) -> (r: Self)
        ensures
            r == *self,
    {
        StyledText { text: self.text.clone(), style: self.style }
    }
}

impl StyledText {
    /// A chunk with the given style.
    pub fn new(text: String, style: TextStyle) -> (r: StyledText)
        ensures
            r@ == (ChunkV { text: text@, style }),
    {
        StyledText { text, style }
    }

    /// An unstyled chunk.
    pub fn plain(text: String) -> (r: StyledText)
        ensures
            r@ == (ChunkV { text: text@, style: TextStyle::plain_spec() }),
    {
        StyledText { text, style: TextStyle::plain() }
    }
}

/// The chunk values of a sequence of styled chunks.
pub open spec fn chunks_abs(chunks: Seq<StyledText>) -> Seq<ChunkV> {
    chunks.map_values(|c: StyledText| c@)
}

/// The concatenation of the chunk texts.
pub open spec fn joined(chunks: Seq<ChunkV>) -> Seq<char>
    decreases chunks.len(),
{
    if chunks.len() == 0 {
        Seq::empty()
    } else {
        chunks[0].text + joined(chunks.skip(1))
    }
}

/// Appending a chunk appends its text.
pub proof fn lemma_joined_push(chunks: Seq<ChunkV>, c: ChunkV)
    ensures
        joined(chunks.push(c)) == joined(chunks) + c.text,
    decreases chunks.len(),
{
    if chunks.len() == 0 {
        assert(chunks.push(c).skip(1) =~= Seq::<ChunkV>::empty());
        assert(chunks.push(c)[0] == c);
        assert(joined(chunks.push(c)) == c.text + joined(Seq::<ChunkV>::empty()));
        assert(c.text + joined(Seq::<ChunkV>::empty()) =~= c.text);
        assert(joined(chunks) + c.text =~= c.text);
    } else {
        assert(chunks.push(c).skip(1) =~= chunks.skip(1).push(c));
        lemma_joined_push(chunks.skip(1), c);
        assert(chunks.push(c)[0] == chunks[0]);
        assert(joined(chunks.push(c)) == chunks[0].text + (joined(chunks.skip(1)) + c.text));
        assert(chunks[0].text + (joined(chunks.skip(1)) + c.text) =~= (chunks[0].text + joined(
            chunks.skip(1),
        )) + c.text);
    }
}

/// `chunks` with `style` applied on top of every chunk's own style.
pub open spec fn applied_style(chunks: Seq<ChunkV>, style: TextStyle) -> Seq<ChunkV> {
    chunks.map_values(
        |c: ChunkV| ChunkV { text: c.text, style: c.style.merged_spec(style) },
    )
}

/// An ordered sequence of styled chunks, concatenated for display.
#[derive(Debug)]
pub struct Text {
    pub chunks: Vec<StyledText>,
}

impl View for Text {
    type V = Seq<ChunkV>;

    open spec fn view(&self) -> Seq<ChunkV> {
        chunks_abs(self.chunks@)
    }
}

impl Clone for Text {
    fn clone(&self) -> (r: Self)
        ensures
            r@ == self@,
    {
        let mut chunks: Vec<StyledText> = Vec::new();
        let mut i: usize = 0;
        while i < self.chunks.len()
            invariant
                i <= self.chunks@.len(),
                chunks@.len() == i,
                forall|j: int| 0 <= j < i ==> chunks@[j] == self.chunks@[j],
            decreases self.chunks@.len() - i,
        {
            chunks.push(self.chunks[i].clone());
            i = i + 1;
        }
        let r = Text { chunks };
        proof {
            assert(r@ =~= self@);
        }
        r
    }
}

impl Text {
    /// A text with no chunks.
    pub fn empty() -> (r: Text)
        ensures
            r@ == Seq::<ChunkV>::empty(),
    {
        let r = Text { chunks: Vec::new() };
        proof {
            assert(r@ =~= Seq::<ChunkV>::empty());
        }
        r
    }

    /// A text of one chunk.
    pub fn single(chunk: StyledText) -> (r: Text)
        ensures
            r@ == seq![chunk@],
    {
        let mut chunks: Vec<StyledText> = Vec::new();
        let ghost cv = chunk@;
        chunks.push(chunk);
        let r = Text { chunks };
        proof {
            assert(r@ =~= seq![cv]);
        }
        r
    }

    /// An unstyled text holding `text`.
    pub fn plain(text: String) -> (r: Text)
        ensures
            r@ == seq![ChunkV { text: text@, style: TextStyle::plain_spec() }],
    {
        Text::single(StyledText::plain(text))
    }

    /// The concatenation of this text's chunks.
    pub open spec fn joined_text(&self) -> Seq<char> {
        joined(self@)
    }

    /// The display width of the concatenated chunks.
    pub fn width(&self) -> (w: usize)
        ensures
            w == display_width(self.joined_text()),
    {
        let mut joined_str = String::new();
        let mut i: usize = 0;
        proof {
            assert(self@.take(0) =~= Seq::<ChunkV>::empty());
        }
        while i < self.chunks.len()
            invariant
                i <= self.chunks@.len(),
                self@.len() == self.chunks@.len(),
                joined_str@ == joined(self@.take(i as int)),
            decreases self.chunks@.len() - i,
        {
            joined_str.append(self.chunks[i].text.as_str());
            proof {
                assert(self@.take(i + 1) =~= self@.take(i as int).push(self@[i as int]));
                lemma_joined_push(self@.take(i as int), self@[i as int]);
            }
            i = i + 1;
        }
        proof {
            assert(self@.take(self@.len() as int) =~= self@);
        }
        measure_str(joined_str.as_str())
    }

    /// Apply `style` on top of every chunk.
    pub fn apply_style(&mut self, style: &TextStyle)
        ensures
            final(self)@ == applied_style(old(self)@, *style),
    {
        let mut chunks: Vec<StyledText> = Vec::new();
        let mut i: usize = 0;
        while i < self.chunks.len()
            invariant
                i <= self.chunks@.len(),
                chunks@.len() == i,
                forall|j: int| 0 <= j < i ==> chunks@[j]@ == (ChunkV {
                    text: old(self).chunks@[j]@.text,
                    style: old(self).chunks@[j]@.style.merged_spec(*style),
                }),
                self.chunks@ == old(self).chunks@,
            decreases self.chunks@.len() - i,
        {
            let merged = self.chunks[i].style.merge(style);
            let text = self.chunks[i].text.clone();
            chunks.push(StyledText { text, style: merged });
            i = i + 1;
        }
        self.chunks = chunks;
        proof {
            assert(final(self)@ =~= applied_style(old(self)@, *style));
        }
    }
}

/// A styled chunk together with its pre-computed display width.
#[derive(Debug)]
pub struct WeightedText {
    pub chunk: StyledText,
    pub width: usize,
}

impl View for WeightedText {
    type V = ChunkV;

    open spec fn view(&self) -> ChunkV {
        self.chunk@
    }
}

impl Clone for WeightedText {
    fn clone(&self) -> (r: Self)
        ensures
            r == *self,
    {
        WeightedText { chunk: self.chunk.clone(), width: self.width }
    }
}

impl WeightedText {
    /// Whether the stored width is the chunk's display width.
    pub open spec fn wf(&self) -> bool {
        self.width == display_width(self.chunk.text@)
    }

    /// Weigh one chunk.
    pub fn new(chunk: StyledText) -> (r: WeightedText)
        ensures
            r.chunk == chunk,
            r.wf(),
    {
        let width = measure_str(chunk.text.as_str());
        WeightedText { chunk, width }
    }
}

/// A render-ready line: an ordered sequence of weighted chunks.
#[derive(Debug)]
pub struct WeightedLine {
    pub texts: Vec<WeightedText>,
}

impl View for WeightedLine {
    type V = Seq<ChunkV>;

    open spec fn view(&self) -> Seq<ChunkV> {
        self.texts@.map_values(|t: WeightedText| t@)
    }
}

impl Clone for WeightedLine {
    fn clone(&self) -> (r: Self)
        ensures
            r@ == self@,
            self.wf() ==> r.wf(),
    {
        let mut texts: Vec<WeightedText> = Vec::new();
        let mut i: usize = 0;
        while i < self.texts.len()
            invariant
                i <= self.texts@.len(),
                texts@.len() == i,
                forall|j: int| 0 <= j < i ==> texts@[j] == self.texts@[j],
            decreases self.texts@.len() - i,
        {
            texts.push(self.texts[i].clone());
            i = i + 1;
        }
        let r = WeightedLine { texts };
        proof {
            assert(r@ =~= self@);
        }
        r
    }
}

impl WeightedLine {
    /// Every chunk carries its true display width.
    pub open spec fn wf(&self) -> bool {
        forall|i: int| 0 <= i < self.texts@.len() ==> self.texts@[i].wf()
    }

    /// A line from already-weighted chunks.
    pub fn new(texts: Vec<WeightedText>) -> (r: WeightedLine)
        ensures
            r.texts@ == texts@,
            r@ == texts@.map_values(|t: WeightedText| t@),
    {
        WeightedLine { texts }
    }

    /// The display width of the whole line.
    pub fn width(&self) -> (w: usize)
        ensures
            w == display_width(joined(self@)),
    {
        let mut joined_str = String::new();
        let mut i: usize = 0;
        proof {
            assert(self@.take(0) =~= Seq::<ChunkV>::empty());
        }
        while i < self.texts.len()
            invariant
                i <= self.texts@.len(),
                self@.len() == self.texts@.len(),
                joined_str@ == joined(self@.take(i as int)),
            decreases self.texts@.len() - i,
        {
            joined_str.append(self.texts[i].chunk.text.as_str());
            proof {
                assert(self@.take(i + 1) =~= self@.take(i as int).push(self@[i as int]));
                lemma_joined_push(self@.take(i as int), self@[i as int]);
            }
            i = i + 1;
        }
        proof {
            assert(self@.take(self@.len() as int) =~= self@);
        }
        measure_str(joined_str.as_str())
    }
}

} // verus!
