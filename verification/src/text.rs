//! Styled text for the UI layer: spans, sections and lines, each of which
//! lays itself out as a row of cells.

use vstd::prelude::*;
use crate::chars;
use crate::frame::Cell;
use crate::geometry::Rect;
use crate::style::{merged, Style};

verus! {

/// How content sits inside the width given to it.
#[derive(Debug, Clone, Copy, PartialEq, Eq, Structural)]
pub enum Alignment {
    /// Content at the left edge.
    Left,
    /// Content at the right edge.
    Right,
    /// Content in the middle.
    Center,
    /// Children spread over equal slots; no padding is added around them.
    SpaceEvenly,
}

impl Default for Alignment {
    fn default() -> (a: Alignment)
        ensures
            a == Alignment::Left,
    {
        Alignment::Left
    }
}

/// `width - content.len()` copies of `pad` around `content`, placed by the
/// alignment; content at least as wide as `width` passes through unchanged.
pub open spec fn padded(content: Seq<Cell>, width: int, alignment: Alignment, pad: Cell) -> Seq<
    Cell,
> {
    if content.len() >= width {
        content
    } else {
        let padding = width - content.len();
        match alignment {
            Alignment::Left => content + Seq::new(padding as nat, |i: int| pad),
            Alignment::Right => Seq::new(padding as nat, |i: int| pad) + content,
            Alignment::Center => Seq::new((padding / 2) as nat, |i: int| pad) + content + Seq::new(
                (padding - padding / 2) as nat,
                |i: int| pad,
            ),
            Alignment::SpaceEvenly => content,
        }
    }
}

/// Returns the given content padded with `pad` to the given width and
/// alignment; content already that wide passes through unchanged.
pub fn pad_and_align_content(content: Vec<Cell>, width: usize, alignment: Alignment, pad: Cell)
    -> (out: Vec<Cell>)
    ensures
        out@ == padded(content@, width as int, alignment, pad),
{
    if content.len() >= width {
        return content;
    }
    let padding = width - content.len();
    match alignment {
        Alignment::Left => {
            let mut out = content;
            push_copies(&mut out, pad, padding);
            out
        },
        Alignment::Right => out_padded_front(content, pad, padding),
        Alignment::Center => {
            let left = padding / 2;
            let right = padding - left;
            let mut out: Vec<Cell> = Vec::new();
            push_copies(&mut out, pad, left);
            let mut i: usize = 0;
            while i < content.len()
                invariant
                    i <= content@.len(),
                    out@ == Seq::new(left as nat, |k: int| pad) + content@.subrange(0, i as int),
                decreases content@.len() - i,
            {
                out.push(content[i]);
                i = i + 1;
                proof {
                    assert(out@ =~= Seq::new(left as nat, |k: int| pad) + content@.subrange(
                        0,
                        i as int,
                    ));
                }
            }
            push_copies(&mut out, pad, right);
            proof {
                assert(content@.subrange(0, content@.len() as int) =~= content@);
                assert(out@ =~= Seq::new(left as nat, |k: int| pad) + content@ + Seq::new(
                    right as nat,
                    |k: int| pad,
                ));
            }
            out
        },
        Alignment::SpaceEvenly => content,
    }
}

/// Appends `count` copies of `pad` to `out`.
fn push_copies(out: &mut Vec<Cell>, pad: Cell, count: usize)
    ensures
        final(out)@ == old(out)@ + Seq::new(count as nat, |i: int| pad),
{
    let mut i: usize = 0;
    while i < count
        invariant
            i <= count,
            out@ == old(out)@ + Seq::new(i as nat, |k: int| pad),
        decreases count - i,
    {
        out.push(pad);
        i = i + 1;
        proof {
            assert(out@ =~= old(out)@ + Seq::new(i as nat, |k: int| pad));
        }
    }
}

/// `padding` copies of `pad`, then the content.
fn out_padded_front(content: Vec<Cell>, pad: Cell, padding: usize) -> (out: Vec<Cell>)
    ensures
        out@ == Seq::new(padding as nat, |i: int| pad) + content@,
{
    let mut out: Vec<Cell> = Vec::new();
    push_copies(&mut out, pad, padding);
    let mut i: usize = 0;
    while i < content.len()
        invariant
            i <= content@.len(),
            out@ == Seq::new(padding as nat, |k: int| pad) + content@.subrange(0, i as int),
        decreases content@.len() - i,
    {
        out.push(content[i]);
        i = i + 1;
        proof {
            assert(out@ =~= Seq::new(padding as nat, |k: int| pad) + content@.subrange(
                0,
                i as int,
            ));
        }
    }
    proof {
        assert(content@.subrange(0, content@.len() as int) =~= content@);
        assert(out@ =~= Seq::new(padding as nat, |k: int| pad) + content@);
    }
    out
}

/// A string with a particular style, padded and aligned to its width.
#[derive(Debug)]
pub struct Span {
    /// The text of the span.
    pub text: String,
    /// The width the span lays itself out to.
    pub width: usize,
    /// The style of the span.
    pub style: Style,
    /// How the text sits inside the width.
    pub alignment: Alignment,
}

/// The character `c` as a cell in the given style.
pub open spec fn styled_cell(c: char, style: Style) -> Cell {
    Cell { ch: c, style }
}

/// The cell with the given style merged underneath its own.
pub open spec fn overlaid_cell(c: Cell, style: Style) -> Cell {
    Cell { ch: c.ch, style: merged(c.style, style) }
}

/// The cells of `text` in the given style, padded to `width` by the given
/// alignment.
pub open spec fn span_cells(
    text: Seq<char>,
    width: int,
    style: Style,
    alignment: Alignment,
) -> Seq<Cell> {
    padded(
        text.map_values(|c: char| styled_cell(c, style)),
        width,
        alignment,
        Cell { ch: ' ', style },
    )
}

impl Span {
    /// The cells this span draws as: its characters in its style, padded
    /// to its width.
    pub open spec fn spec_cells(&self) -> Seq<Cell> {
        span_cells(self.text@, self.width as int, self.style, self.alignment)
    }

    /// A span over the given text; its width starts as the character count
    /// of the text.
    pub fn new(str: &str) -> (s: Span)
        ensures
            s.text@ == str@,
            s.width == str@.len(),
            s.style == Style::unset(),
            s.alignment == Alignment::Left,
    {
        let text = String::from_str(str);
        let width = str.unicode_len();
        Span { text, width, style: Style::new(), alignment: Alignment::Left }
    }

    /// Sets the width the span pads and aligns to.
    pub fn with_width(self, width: usize) -> (s: Span)
        ensures
            s == (Span { width, ..self }),
    {
        Span { width, ..self }
    }

    /// Sets the style of the span.
    pub fn with_style(self, style: Style) -> (s: Span)
        ensures
            s == (Span { style, ..self }),
    {
        Span { style, ..self }
    }

    /// Sets the alignment of the span.
    pub fn with_alignment(self, alignment: Alignment) -> (s: Span)
        ensures
            s == (Span { alignment, ..self }),
    {
        Span { alignment, ..self }
    }

    /// Returns the span as a vector of cells.
    pub fn as_cells(&self) -> (out: Vec<Cell>)
        ensures
            out@ == self.spec_cells(),
    {
        span_cells_under(self, self.style)
    }
}

/// The cells of the span, drawn in the given effective style.
fn span_cells_under(span: &Span, style: Style) -> (out: Vec<Cell>)
    ensures
        out@ == span_cells(span.text@, span.width as int, style, span.alignment),
{
    let cs = chars::chars_of(span.text.as_str());
    let mut content: Vec<Cell> = Vec::new();
    let mut i: usize = 0;
    while i < cs.len()
        invariant
            i <= cs@.len(),
            cs@ == span.text@,
            content@.len() == i,
            forall|k: int|
                0 <= k < i ==> (#[trigger] content@[k]).ch == span.text@[k] && content@[k].style
                    == style,
        decreases cs@.len() - i,
    {
        let c = cs[i];
        let cell = Cell::new(c).with_style(style);
        content.push(cell);
        i = i + 1;
    }
    proof {
        assert(content@ =~= span.text@.map_values(|c: char| styled_cell(c, style)));
    }
    pad_and_align_content(content, span.width, span.alignment, Cell { ch: ' ', style })
}

/// The cells of the spans `spans[0..upto]`, each drawn in its own style
/// merged over the given fallback style, laid end to end.
pub open spec fn section_content(spans: Seq<Span>, fallback: Style, upto: int) -> Seq<Cell>
    decreases upto,
{
    if upto <= 0 {
        Seq::empty()
    } else {
        section_content(spans, fallback, upto - 1) + span_cells(
            spans[upto - 1].text@,
            spans[upto - 1].width as int,
            merged(spans[upto - 1].style, fallback),
            spans[upto - 1].alignment,
        )
    }
}

/// A group of spans that shares a fallback style and is padded and aligned
/// as one unit.
#[derive(Debug)]
pub struct Section {
    /// The width of the section; usually assigned by the containing line.
    pub width: usize,
    /// The spans of the section.
    pub spans: Vec<Span>,
    /// The fallback style for every span of the section.
    pub style: Style,
    /// How the spans sit inside the section's width.
    pub alignment: Alignment,
}

impl Section {
    /// The cells this section draws as.
    pub open spec fn spec_cells(&self) -> Seq<Cell> {
        padded(
            section_content(self.spans@, self.style, self.spans@.len() as int),
            self.width as int,
            self.alignment,
            Cell { ch: ' ', style: self.style },
        )
    }

    pub fn new(spans: Vec<Span>) -> (s: Section)
        ensures
            s.spans == spans,
            s.width == 0,
            s.style == Style::unset(),
            s.alignment == Alignment::Left,
    {
        Section { width: 0, spans, style: Style::new(), alignment: Alignment::Left }
    }

    /// Sets the fallback style of the section.
    pub fn with_style(self, style: Style) -> (s: Section)
        ensures
            s.width == self.width && s.spans == self.spans && s.alignment == self.alignment,
            s.style == style,
    {
        Section { style, ..self }
    }

    /// Sets the alignment of the section.
    pub fn with_alignment(self, alignment: Alignment) -> (s: Section)
        ensures
            s.width == self.width && s.spans == self.spans && s.style == self.style,
            s.alignment == alignment,
    {
        Section { alignment, ..self }
    }

    /// Inserts the given separator, in the section's style, between each
    /// pair of adjacent spans.
    pub fn with_separator(self, separator: &str) -> (s: Section)
        ensures
            s.width == self.width && s.style == self.style && s.alignment == self.alignment,
            self.spans@.len() == 0 ==> s.spans@ == self.spans@,
            self.spans@.len() > 0 ==> {
                &&& s.spans@.len() == 2 * self.spans@.len() - 1
                &&& forall|i: int|
                    0 <= i < self.spans@.len() ==> s.spans@[2 * i] == self.spans@[i]
                &&& forall|i: int|
                    0 <= i < self.spans@.len() - 1 ==> (#[trigger] s.spans@[2 * i + 1]).text@
                        == separator@ && s.spans@[2 * i + 1].style == self.style
                        && s.spans@[2 * i + 1].width == separator@.len()
                        && s.spans@[2 * i + 1].alignment == Alignment::Left
            },
    {
        if self.spans.len() == 0 {
            return self;
        }
        let ghost originals = self.spans@;
        proof {
            assert(originals.len() <= usize::MAX) by {
                assert(self.spans.len() == originals.len());
            }
        }
        let mut rest = self.spans;
        let mut new_spans: Vec<Span> = Vec::new();
        let first = rest.remove(0);
        new_spans.push(first);
        let mut taken: usize = 1;
        while rest.len() > 0
            invariant
                1 <= taken <= originals.len() <= usize::MAX,
                rest@ == originals.subrange(taken as int, originals.len() as int),
                new_spans@.len() == 2 * taken - 1,
                forall|k: int| 0 <= k < taken ==> new_spans@[2 * k] == originals[k],
                forall|k: int|
                    0 <= k < taken - 1 ==> (#[trigger] new_spans@[2 * k + 1]).text@ == separator@
                        && new_spans@[2 * k + 1].style == self.style && new_spans@[2 * k
                        + 1].width == separator@.len() && new_spans@[2 * k + 1].alignment
                        == Alignment::Left,
            decreases rest@.len(),
        {
            let sep = Span::new(separator).with_style(self.style);
            new_spans.push(sep);
            let next = rest.remove(0);
            new_spans.push(next);
            proof {
                assert(rest@ =~= originals.subrange(taken + 1, originals.len() as int));
            }
            taken = taken + 1;
        }
        Section { spans: new_spans, ..self }
    }

    /// Inserts a single-space separator between each pair of spans.
    pub fn with_whitespace_separator(self) -> (s: Section)
        ensures
            s.width == self.width && s.style == self.style && s.alignment == self.alignment,
            self.spans@.len() == 0 ==> s.spans@ == self.spans@,
            self.spans@.len() > 0 ==> {
                &&& s.spans@.len() == 2 * self.spans@.len() - 1
                &&& forall|i: int|
                    0 <= i < self.spans@.len() ==> s.spans@[2 * i] == self.spans@[i]
                &&& forall|i: int|
                    0 <= i < self.spans@.len() - 1 ==> (#[trigger] s.spans@[2 * i + 1]).text@
                        == " "@ && s.spans@[2 * i + 1].style == self.style
            },
    {
        self.with_separator(" ")
    }

    /// Returns the section as a vector of cells, padded and aligned to its
    /// width.
    pub fn as_cells(&self) -> (out: Vec<Cell>)
        ensures
            out@ == self.spec_cells(),
    {
        section_cells_to_width(self, self.width)
    }
}

/// The cells of the section laid out to the given width instead of its own.
fn section_cells_to_width(section: &Section, width: usize) -> (out: Vec<Cell>)
    ensures
        out@ == padded(
            section_content(section.spans@, section.style, section.spans@.len() as int),
            width as int,
            section.alignment,
            Cell { ch: ' ', style: section.style },
        ),
{
    let mut content: Vec<Cell> = Vec::new();
    let mut i: usize = 0;
    while i < section.spans.len()
        invariant
            i <= section.spans@.len(),
            content@ == section_content(section.spans@, section.style, i as int),
        decreases section.spans@.len() - i,
    {
        let style = section.spans[i].style.merge(section.style);
        let cells = span_cells_under(&section.spans[i], style);
        let mut k: usize = 0;
        while k < cells.len()
            invariant
                k <= cells@.len(),
                i < section.spans@.len(),
                content@ == section_content(section.spans@, section.style, i as int)
                    + cells@.subrange(0, k as int),
                cells@ == span_cells(
                    section.spans@[i as int].text@,
                    section.spans@[i as int].width as int,
                    merged(section.spans@[i as int].style, section.style),
                    section.spans@[i as int].alignment,
                ),
            decreases cells@.len() - k,
        {
            content.push(cells[k]);
            k = k + 1;
            proof {
                assert(content@ =~= section_content(section.spans@, section.style, i as int)
                    + cells@.subrange(0, k as int));
            }
        }
        proof {
            assert(cells@.subrange(0, cells@.len() as int) =~= cells@);
            assert(content@ =~= section_content(section.spans@, section.style, i + 1));
        }
        i = i + 1;
    }
    pad_and_align_content(content, width, section.alignment, Cell { ch: ' ', style: section.style })
}

/// The cells of the sections `sections[0..upto]`, the i-th laid out to the
/// width `slots[i]`, end to end.
pub open spec fn line_content(sections: Seq<Section>, slots: Seq<int>, upto: int) -> Seq<Cell>
    decreases upto,
{
    if upto <= 0 {
        Seq::empty()
    } else {
        line_content(sections, slots, upto - 1) + padded(
            section_content(
                sections[upto - 1].spans@,
                sections[upto - 1].style,
                sections[upto - 1].spans@.len() as int,
            ),
            slots[upto - 1],
            sections[upto - 1].alignment,
            Cell { ch: ' ', style: sections[upto - 1].style },
        )
    }
}

/// A full row of the screen, divided into near-equal section slots.
#[derive(Debug)]
pub struct Line {
    /// The number of columns in the line.
    pub width: usize,
    /// The sections of the line.
    pub sections: Vec<Section>,
    /// A fallback style applied under every cell of the line.
    pub style: Style,
}

impl Line {
    /// The width of the slot the i-th section receives: the line's width
    /// divided into near-equal parts, one per section.
    pub open spec fn slot_width(&self, i: int) -> int {
        Rect::part_size(self.width as int, self.sections@.len() as int, i)
    }

    /// The slot widths of all sections.
    pub open spec fn slots(&self) -> Seq<int> {
        Seq::new(self.sections@.len(), |i: int| self.slot_width(i))
    }

    /// The cells this line draws as: each section padded to its slot, laid
    /// end to end, with the line's style under every cell.
    pub open spec fn spec_cells(&self) -> Seq<Cell> {
        line_content(self.sections@, self.slots(), self.sections@.len() as int).map_values(
            |c: Cell| overlaid_cell(c, self.style),
        )
    }

    pub fn new(width: usize) -> (l: Line)
        ensures
            l.width == width,
            l.sections@ == Seq::<Section>::empty(),
            l.style == Style::unset(),
    {
        Line { width, sections: Vec::new(), style: Style::new() }
    }

    /// Sets the fallback style of the line.
    pub fn with_style(self, style: Style) -> (l: Line)
        ensures
            l.width == self.width && l.sections == self.sections,
            l.style == style,
    {
        Line { style, ..self }
    }

    /// Adds a section to the line.
    pub fn with_section(self, section: Section) -> (l: Line)
        ensures
            l.width == self.width && l.style == self.style,
            l.sections@ == self.sections@.push(section),
    {
        let mut sections = self.sections;
        sections.push(section);
        Line { sections, ..self }
    }

    /// Returns the line as a vector of cells: the width is divided into
    /// near-equal slots, one per section, and each section lays itself out
    /// in its slot.
    pub fn as_cells(&self) -> (out: Vec<Cell>)
        ensures
            out@ == self.spec_cells(),
    {
        let n = self.sections.len();
        if n == 0 {
            proof {
                assert(self.spec_cells() =~= Seq::<Cell>::empty());
            }
            return Vec::new();
        }
        let base = self.width / n;
        let rem = self.width % n;
        let mut content: Vec<Cell> = Vec::new();
        let mut i: usize = 0;
        while i < n
            invariant
                i <= n,
                0 < n,
                n == self.sections@.len(),
                base == self.width as int / n as int,
                rem == self.width as int % n as int,
                content@ == line_content(self.sections@, self.slots(), i as int),
            decreases n - i,
        {
            let extra: usize = if i < rem {
                1
            } else {
                0
            };
            proof {
                Rect::lemma_part_bounds(self.width as int, n as int, i as int);
            }
            let slot = base + extra;
            proof {
                assert(slot == self.slots()[i as int]);
            }
            let cells = section_cells_to_width(&self.sections[i], slot);
            let mut k: usize = 0;
            while k < cells.len()
                invariant
                    k <= cells@.len(),
                    i < n,
                    n == self.sections@.len(),
                    content@ == line_content(self.sections@, self.slots(), i as int)
                        + cells@.subrange(0, k as int),
                    cells@ == padded(
                        section_content(
                            self.sections@[i as int].spans@,
                            self.sections@[i as int].style,
                            self.sections@[i as int].spans@.len() as int,
                        ),
                        self.slots()[i as int],
                        self.sections@[i as int].alignment,
                        Cell { ch: ' ', style: self.sections@[i as int].style },
                    ),
                decreases cells@.len() - k,
            {
                content.push(cells[k]);
                k = k + 1;
                proof {
                    assert(content@ =~= line_content(self.sections@, self.slots(), i as int)
                        + cells@.subrange(0, k as int));
                }
            }
            proof {
                assert(cells@.subrange(0, cells@.len() as int) =~= cells@);
                assert(content@ =~= line_content(self.sections@, self.slots(), i + 1));
            }
            i = i + 1;
        }
        let mut out: Vec<Cell> = Vec::new();
        let mut k: usize = 0;
        while k < content.len()
            invariant
                k <= content@.len(),
                content@ == line_content(self.sections@, self.slots(), self.sections@.len() as int),
                out@.len() == k,
                forall|j: int|
                    0 <= j < k ==> #[trigger] out@[j] == overlaid_cell(content@[j], self.style),
            decreases content@.len() - k,
        {
            let c = content[k];
            let cell = Cell::new(c.ch).with_style(c.style.merge(self.style));
            out.push(cell);
            k = k + 1;
        }
        proof {
            assert(out@ =~= self.spec_cells());
        }
        out
    }
}

} // verus!
