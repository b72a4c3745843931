//! Widgets: spans, fixed-width separators and nestable containers that lay
//! their children out side by side inside an optional fixed width.

use vstd::prelude::*;
use crate::frame::Cell;
use crate::geometry::Rect;
use crate::style::{merged, Style};
use crate::text::{styled_cell, Alignment, Span};

verus! {

/// A fixed-width run of blank cells.
#[derive(Debug, Clone, Copy)]
pub struct WhitespaceSeparator {
    /// The width of the separator.
    pub width: usize,
    /// The style of the separator.
    pub style: Style,
}

impl Default for WhitespaceSeparator {
    /// A separator one column wide.
    fn default() -> (s: WhitespaceSeparator)
        ensures
            s.width == 1 && s.style == Style::unset(),
    {
        WhitespaceSeparator { width: 1, style: Style::new() }
    }
}

impl WhitespaceSeparator {
    pub fn new(width: usize) -> (s: WhitespaceSeparator)
        ensures
            s.width == width && s.style == Style::unset(),
    {
        WhitespaceSeparator { width, style: Style::new() }
    }
}

/// Anything a container can hold.
#[derive(Debug)]
pub enum Widget {
    /// A styled piece of text.
    Text(Span),
    /// A run of blank cells.
    Space(WhitespaceSeparator),
    /// A nested container.
    Group(Container),
}

/// A container that lays its children out side by side.
#[derive(Debug)]
pub struct Container {
    /// The width of the container. `None` lets it grow with its content.
    pub width: Option<usize>,
    /// The children of the container.
    pub children: Vec<Widget>,
    /// The style applied under every child.
    pub style: Style,
    /// How the container aligns its children.
    pub alignment: Alignment,
}

/// A sum clamped to the representable widths.
pub open spec fn sat_add_width(a: int, b: int) -> int {
    if a + b > usize::MAX {
        usize::MAX as int
    } else if a + b < 0 {
        0
    } else {
        a + b
    }
}

/// The natural width of a widget: what it occupies when nothing constrains
/// it, saturating at the largest representable width.
pub open spec fn widget_width(w: Widget) -> int
    decreases w,
{
    match w {
        Widget::Text(span) => if span.text@.len() <= usize::MAX {
            span.text@.len() as int
        } else {
            usize::MAX as int
        },
        Widget::Space(sep) => sep.width as int,
        Widget::Group(c) => match c.width {
            Some(width) => width as int,
            None => children_width(c.children@, c.children@.len() as int),
        },
    }
}

/// The summed natural widths of `children[0..upto]`, saturating at the
/// largest representable width.
pub open spec fn children_width(children: Seq<Widget>, upto: int) -> int
    decreases children, upto,
{
    if upto <= 0 || upto > children.len() {
        0
    } else {
        sat_add_width(
            children_width(children, upto - 1),
            widget_width(children[upto - 1]),
        )
    }
}

/// Content cut or padded to exactly `width` cells: longer content loses
/// its tail, shorter content gains copies of `pad` placed by the
/// alignment. `SpaceEvenly` passes content through unchanged.
pub open spec fn fitted(content: Seq<Cell>, width: int, alignment: Alignment, pad: Cell) -> Seq<
    Cell,
> {
    let padding = if content.len() >= width {
        0int
    } else {
        width - content.len()
    };
    match alignment {
        Alignment::Left => (content + Seq::new(padding as nat, |i: int| pad)).take(width),
        Alignment::Right => (Seq::new(padding as nat, |i: int| pad) + content).take(width),
        Alignment::Center => (Seq::new((padding / 2) as nat, |i: int| pad) + content + Seq::new(
            (padding - padding / 2) as nat,
            |i: int| pad,
        )).take(width),
        Alignment::SpaceEvenly => content,
    }
}

/// The width the i-th child of a container receives: its slot of the
/// container's width when children are spread evenly over a fixed width,
/// its natural width otherwise.
pub open spec fn child_slot(
    children: Seq<Widget>,
    width: Option<usize>,
    alignment: Alignment,
    i: int,
) -> int {
    if alignment == Alignment::SpaceEvenly && width is Some && children.len() > 0 {
        Rect::part_size(width->0 as int, children.len() as int, i)
    } else {
        widget_width(children[i])
    }
}

/// The cells of a widget laid out to the given width, with the given style
/// underneath its own.
pub open spec fn widget_cells(w: Widget, give: int, overlay: Style) -> Seq<Cell>
    decreases w,
{
    match w {
        Widget::Text(span) => span.text@.take(
            if give <= span.text@.len() {
                give
            } else {
                span.text@.len() as int
            },
        ).map_values(|c: char| styled_cell(c, merged(span.style, overlay))),
        Widget::Space(sep) => Seq::new(
            if give >= 0 {
                give as nat
            } else {
                0nat
            },
            |i: int| styled_cell(' ', merged(sep.style, overlay)),
        ),
        Widget::Group(c) => container_layout(
            c.children@,
            Some(give as usize),
            merged(c.style, overlay),
            c.alignment,
        ),
    }
}

/// The concatenated cells of `children[0..upto]`, each laid out to its
/// slot.
pub open spec fn children_cells(
    children: Seq<Widget>,
    width: Option<usize>,
    style: Style,
    alignment: Alignment,
    upto: int,
) -> Seq<Cell>
    decreases children, upto,
{
    if upto <= 0 || upto > children.len() {
        Seq::empty()
    } else {
        children_cells(children, width, style, alignment, upto - 1) + widget_cells(
            children[upto - 1],
            child_slot(children, width, alignment, upto - 1),
            style,
        )
    }
}

/// The cells a container draws as: its children's cells laid end to end,
/// then cut or padded to the container's width.
pub open spec fn container_layout(
    children: Seq<Widget>,
    width: Option<usize>,
    style: Style,
    alignment: Alignment,
) -> Seq<Cell>
    decreases children,
{
    let content = children_cells(children, width, style, alignment, children.len() as int);
    let out_width = match width {
        Some(w) => w as int,
        None => content.len() as int,
    };
    if out_width == 0 {
        Seq::empty()
    } else {
        fitted(content, out_width, alignment, Cell { ch: ' ', style })
    }
}

/// The cells of a fixed-width container holding a single text child: the
/// text in the container's style, cut or padded to the width by the
/// container's alignment.
pub open spec fn framed_text_cells(
    text: Seq<char>,
    width: int,
    style: Style,
    alignment: Alignment,
) -> Seq<Cell> {
    let natural = if text.len() <= usize::MAX {
        text.len() as int
    } else {
        usize::MAX as int
    };
    let content = text.take(natural).map_values(|c: char| styled_cell(c, style));
    if width == 0 {
        Seq::empty()
    } else {
        fitted(content, width, alignment, Cell { ch: ' ', style })
    }
}

/// A fixed-width container holding one plain text span lays out as
/// `framed_text_cells`.
pub proof fn lemma_single_text_layout(span: Span, width: usize, style: Style, alignment: Alignment)
    requires
        span.style == Style::unset(),
        alignment != Alignment::SpaceEvenly,
    ensures
        container_layout(seq![Widget::Text(span)], Some(width), style, alignment)
            == framed_text_cells(span.text@, width as int, style, alignment),
{
    let children = seq![Widget::Text(span)];
    let natural = if span.text@.len() <= usize::MAX {
        span.text@.len() as int
    } else {
        usize::MAX as int
    };
    assert(merged(span.style, style) =~= style);
    assert(child_slot(children, Some(width), alignment, 0) == natural);
    let one = widget_cells(children[0], natural, style);
    assert(one =~= span.text@.take(natural).map_values(|c: char| styled_cell(c, style)));
    assert(children.len() == 1);
    assert(children_cells(children, Some(width), style, alignment, 0)
        =~= Seq::<Cell>::empty());
    assert(children_cells(children, Some(width), style, alignment, 1) == children_cells(
        children,
        Some(width),
        style,
        alignment,
        0,
    ) + widget_cells(children[0], child_slot(children, Some(width), alignment, 0), style));
    assert(children_cells(children, Some(width), style, alignment, 1) =~= one);
}

/// The children of a bar: every child is a sub-container that pads to its
/// own width.
pub open spec fn all_padding_groups(children: Seq<Widget>) -> bool {
    forall|j: int|
        0 <= j < children.len() ==> ((#[trigger] children[j]) matches Widget::Group(g)
            && g.alignment != Alignment::SpaceEvenly)
}

/// A bar that spreads padding sub-containers evenly over a fixed width
/// never draws more cells than that width: the slots sum to the width and
/// every child fills at most its slot.
pub proof fn lemma_bar_content_len(children: Seq<Widget>, w: usize, style: Style, upto: int)
    requires
        0 <= upto <= children.len(),
        children.len() > 0,
        all_padding_groups(children),
    ensures
        children_cells(children, Some(w), style, Alignment::SpaceEvenly, upto).len()
            <= Rect::part_start(w as int, children.len() as int, upto),
        upto == children.len() ==> children_cells(
            children,
            Some(w),
            style,
            Alignment::SpaceEvenly,
            upto,
        ).len() <= w,
    decreases upto,
{
    let n = children.len() as int;
    vstd::arithmetic::div_mod::lemma_fundamental_div_mod(w as int, n);
    vstd::arithmetic::div_mod::lemma_mod_bound(w as int, n);
    vstd::arithmetic::div_mod::lemma_div_pos_is_pos(w as int, n);
    if upto > 0 {
        lemma_bar_content_len(children, w, style, upto - 1);
        Rect::lemma_part_bounds(w as int, n, upto - 1);
        let child = children[upto - 1];
        let slot = child_slot(children, Some(w), Alignment::SpaceEvenly, upto - 1);
        assert(slot == Rect::part_size(w as int, n, upto - 1));
        match child {
            Widget::Group(g) => {
                lemma_fixed_container_len(g.children@, slot as usize, merged(g.style, style),
                g.alignment);
                assert(widget_cells(child, slot, style).len() <= slot);
            },
            _ => {
                assert(false);
            },
        }
        if upto < n {
            assert(Rect::part_start(w as int, n, upto - 1) + Rect::part_size(w as int, n, upto - 1)
                == Rect::part_start(w as int, n, upto));
        } else {
            assert(Rect::part_start(w as int, n, upto) == n * (w as int / n) + (w as int % n));
            assert(n * (w as int / n) == (w as int / n) * n) by (nonlinear_arith);
            assert((upto - 1) * (w as int / n) + (w as int / n) == upto * (w as int / n))
                by (nonlinear_arith);
            assert(Rect::part_start(w as int, n, upto) == w as int);
        }
    } else {
        assert(Rect::part_start(w as int, n, 0) >= 0) by {
            assert(0int * (w as int / n) == 0) by (nonlinear_arith);
        }
    }
}

/// A container with a fixed width and a padding alignment never draws more
/// cells than its width.
pub proof fn lemma_fixed_container_len(
    children: Seq<Widget>,
    width: usize,
    style: Style,
    alignment: Alignment,
)
    requires
        alignment != Alignment::SpaceEvenly,
    ensures
        container_layout(children, Some(width), style, alignment).len() <= width,
{
}

impl Container {
    /// The cells this container draws as.
    pub open spec fn spec_cells(&self) -> Seq<Cell> {
        container_layout(self.children@, self.width, self.style, self.alignment)
    }

    /// Inserts a whitespace separator of the given width between all
    /// children; containers of at most one child are unchanged.
    pub fn with_whitespace_separator(self, width: usize) -> (c: Container)
        ensures
            c.width == self.width && c.style == self.style && c.alignment == self.alignment,
            self.children@.len() <= 1 ==> c.children@ == self.children@,
            self.children@.len() > 1 ==> {
                &&& c.children@.len() == 2 * self.children@.len() - 1
                &&& forall|i: int|
                    0 <= i < self.children@.len() ==> c.children@[2 * i] == self.children@[i]
                &&& forall|i: int|
                    0 <= i < self.children@.len() - 1 ==> #[trigger] c.children@[2 * i + 1]
                        == Widget::Space(WhitespaceSeparator { width, style: Style::unset() })
            },
    {
        if self.children.len() <= 1 {
            return self;
        }
        let ghost originals = self.children@;
        proof {
            assert(originals.len() <= usize::MAX) by {
                assert(self.children.len() == originals.len());
            }
        }
        let mut rest = self.children;
        let mut separated: Vec<Widget> = Vec::new();
        let first = rest.remove(0);
        separated.push(first);
        let mut taken: usize = 1;
        while rest.len() > 0
            invariant
                1 <= taken <= originals.len() <= usize::MAX,
                rest@ == originals.subrange(taken as int, originals.len() as int),
                separated@.len() == 2 * taken - 1,
                forall|k: int| 0 <= k < taken ==> separated@[2 * k] == originals[k],
                forall|k: int|
                    0 <= k < taken - 1 ==> #[trigger] separated@[2 * k + 1] == Widget::Space(
                        WhitespaceSeparator { width, style: Style::unset() },
                    ),
            decreases rest@.len(),
        {
            let sep = Widget::Space(WhitespaceSeparator::new(width));
            separated.push(sep);
            let next = rest.remove(0);
            separated.push(next);
            proof {
                assert(rest@ =~= originals.subrange(taken + 1, originals.len() as int));
            }
            taken = taken + 1;
        }
        Container { children: separated, ..self }
    }

    /// Returns the container as a vector of cells.
    pub fn as_cells(&self) -> (out: Vec<Cell>)
        ensures
            out@ == self.spec_cells(),
        decreases *self,
    {
        container_cells_exec(&self.children, self.width, self.style, self.alignment)
    }

    /// Returns the natural width of the container: its fixed width, or the
    /// summed widths of its children, saturating at the largest value.
    pub fn width(&self) -> (w: usize)
        ensures
            w as int == match self.width {
                Some(width) => width as int,
                None => children_width(self.children@, self.children@.len() as int),
            },
        decreases *self,
    {
        match self.width {
            Some(w) => w,
            None => children_width_exec(&self.children),
        }
    }
}

impl Default for Container {
    /// An empty, flexible container.
    fn default() -> (c: Container)
        ensures
            c.width is None,
            c.children@ == Seq::<Widget>::empty(),
            c.style == Style::unset(),
            c.alignment == Alignment::Left,
    {
        Container { width: None, children: Vec::new(), style: Style::new(), alignment:
        Alignment::Left }
    }
}

/// Builds a container step by step.
#[derive(Debug)]
pub struct ContainerBuilder {
    /// The width of the container. `None` lets it grow with its content.
    pub width: Option<usize>,
    /// The children of the container.
    pub children: Vec<Widget>,
    /// The style applied under every child.
    pub style: Style,
    /// How the container aligns its children.
    pub alignment: Alignment,
}

impl Default for ContainerBuilder {
    /// A builder for an empty, flexible container.
    fn default() -> (b: ContainerBuilder)
        ensures
            b.width is None,
            b.children@ == Seq::<Widget>::empty(),
            b.style == Style::unset(),
            b.alignment == Alignment::Left,
    {
        ContainerBuilder {
            width: None,
            children: Vec::new(),
            style: Style::new(),
            alignment: Alignment::Left,
        }
    }
}

impl ContainerBuilder {
    /// Adds a child to the container.
    pub fn with_child(self, child: Widget) -> (b: ContainerBuilder)
        ensures
            b.width == self.width && b.style == self.style && b.alignment == self.alignment,
            b.children@ == self.children@.push(child),
    {
        let mut children = self.children;
        children.push(child);
        ContainerBuilder { children, ..self }
    }

    /// Adds all the given children to the container.
    pub fn with_children(self, more: Vec<Widget>) -> (b: ContainerBuilder)
        ensures
            b.width == self.width && b.style == self.style && b.alignment == self.alignment,
            b.children@ == self.children@ + more@,
    {
        let mut children = self.children;
        let mut more = more;
        children.append(&mut more);
        ContainerBuilder { children, ..self }
    }

    /// Sets the alignment of the container.
    pub fn with_alignment(self, alignment: Alignment) -> (b: ContainerBuilder)
        ensures
            b.width == self.width && b.style == self.style && b.children == self.children,
            b.alignment == alignment,
    {
        ContainerBuilder { alignment, ..self }
    }

    /// Sets the width of the container; `None` lets it grow with its
    /// content.
    pub fn with_width(self, width: Option<usize>) -> (b: ContainerBuilder)
        ensures
            b.children == self.children && b.style == self.style && b.alignment
                == self.alignment,
            b.width == width,
    {
        ContainerBuilder { width, ..self }
    }

    /// Sets the style of the container.
    pub fn with_style(self, style: Style) -> (b: ContainerBuilder)
        ensures
            b.width == self.width && b.children == self.children && b.alignment
                == self.alignment,
            b.style == style,
    {
        ContainerBuilder { style, ..self }
    }

    /// Builds the container.
    pub fn build(self) -> (c: Container)
        ensures
            c.width == self.width && c.children == self.children && c.style == self.style
                && c.alignment == self.alignment,
    {
        Container {
            width: self.width,
            children: self.children,
            style: self.style,
            alignment: self.alignment,
        }
    }
}

/// The summed natural widths of the children, saturating at the largest
/// representable value.
fn children_width_exec(children: &Vec<Widget>) -> (w: usize)
    ensures
        w as int == children_width(children@, children@.len() as int),
    decreases *children,
{
    let mut total: usize = 0;
    let mut i: usize = 0;
    while i < children.len()
        invariant
            i <= children@.len(),
            total as int == children_width(children@, i as int),
        decreases children@.len() - i,
    {
        let cw = widget_width_exec(&children[i]);
        total = if total > usize::MAX - cw {
            usize::MAX
        } else {
            total + cw
        };
        i = i + 1;
    }
    total
}

/// A widget's natural width is never negative.
proof fn lemma_widget_width_nonneg(w: Widget)
    ensures
        widget_width(w) >= 0,
    decreases w,
{
}

/// The natural width of one widget, saturating at the largest value.
fn widget_width_exec(w: &Widget) -> (out: usize)
    ensures
        out as int == widget_width(*w),
    decreases *w,
{
    proof {
        lemma_widget_width_nonneg(*w);
    }
    match w {
        Widget::Text(span) => {
            let n = span.text.as_str().unicode_len();
            n
        },
        Widget::Space(sep) => sep.width,
        Widget::Group(c) => match c.width {
            Some(width) => width,
            None => children_width_exec(&c.children),
        },
    }
}

/// The cells of one widget laid out to the given width.
fn widget_cells_exec(w: &Widget, give: usize, overlay: Style) -> (out: Vec<Cell>)
    ensures
        out@ == widget_cells(*w, give as int, overlay),
    decreases *w,
{
    match w {
        Widget::Text(span) => {
            let cs = crate::chars::chars_of(span.text.as_str());
            let style = span.style.merge(overlay);
            let limit = if give <= cs.len() {
                give
            } else {
                cs.len()
            };
            let mut out: Vec<Cell> = Vec::new();
            let mut i: usize = 0;
            while i < limit
                invariant
                    i <= limit,
                    limit <= cs@.len(),
                    cs@ == span.text@,
                    out@.len() == i,
                    forall|k: int|
                        0 <= k < i ==> #[trigger] out@[k] == styled_cell(cs@[k], style),
                decreases limit - i,
            {
                let c = cs[i];
                let cell = Cell::new(c).with_style(style);
                out.push(cell);
                i = i + 1;
            }
            proof {
                assert(out@ =~= widget_cells(*w, give as int, overlay));
            }
            out
        },
        Widget::Space(sep) => {
            let style = sep.style.merge(overlay);
            let mut out: Vec<Cell> = Vec::new();
            let mut i: usize = 0;
            while i < give
                invariant
                    i <= give,
                    out@.len() == i,
                    forall|k: int| 0 <= k < i ==> #[trigger] out@[k] == styled_cell(' ', style),
                decreases give - i,
            {
                let cell = Cell::new(' ').with_style(style);
                out.push(cell);
                i = i + 1;
            }
            proof {
                assert(out@ =~= widget_cells(*w, give as int, overlay));
            }
            out
        },
        Widget::Group(c) => {
            let style = c.style.merge(overlay);
            container_cells_exec(&c.children, Some(give), style, c.alignment)
        },
    }
}

/// Content cut or padded to exactly `width` cells.
fn fit_content(content: Vec<Cell>, width: usize, alignment: Alignment, pad: Cell) -> (out: Vec<
    Cell,
>)
    ensures
        out@ == fitted(content@, width as int, alignment, pad),
{
    match alignment {
        Alignment::SpaceEvenly => content,
        Alignment::Left => {
            let ghost cv = content@;
            let mut out = content;
            if out.len() < width {
                let padding = width - out.len();
                push_pad(&mut out, pad, padding);
            }
            out.truncate(width);
            proof {
                assert(out@ =~= fitted(cv, width as int, alignment, pad));
            }
            out
        },
        Alignment::Right => {
            let padding = if content.len() >= width {
                0
            } else {
                width - content.len()
            };
            let mut out: Vec<Cell> = Vec::new();
            push_pad(&mut out, pad, padding);
            append_cells(&mut out, &content);
            out.truncate(width);
            proof {
                assert(out@ =~= fitted(content@, width as int, alignment, pad));
            }
            out
        },
        Alignment::Center => {
            let padding = if content.len() >= width {
                0
            } else {
                width - content.len()
            };
            let left = padding / 2;
            let right = padding - left;
            let mut out: Vec<Cell> = Vec::new();
            push_pad(&mut out, pad, left);
            append_cells(&mut out, &content);
            push_pad(&mut out, pad, right);
            out.truncate(width);
            proof {
                assert(out@ =~= fitted(content@, width as int, alignment, pad));
            }
            out
        },
    }
}

/// Appends `count` copies of `pad`.
fn push_pad(out: &mut Vec<Cell>, pad: Cell, count: usize)
    ensures
        final(out)@ == old(out)@ + Seq::new(count as nat, |i: int| pad),
{
    let mut i: usize = 0;
    while i < count
        invariant
            i <= count,
            out@ == old(out)@ + Seq::new(i as nat, |k: int| pad),
        decreases count - i,
    {
        out.push(pad);
        i = i + 1;
        proof {
            assert(out@ =~= old(out)@ + Seq::new(i as nat, |k: int| pad));
        }
    }
}

/// Appends all of `more`.
fn append_cells(out: &mut Vec<Cell>, more: &Vec<Cell>)
    ensures
        final(out)@ == old(out)@ + more@,
{
    let mut i: usize = 0;
    while i < more.len()
        invariant
            i <= more@.len(),
            out@ == old(out)@ + more@.subrange(0, i as int),
        decreases more@.len() - i,
    {
        out.push(more[i]);
        i = i + 1;
        proof {
            assert(out@ =~= old(out)@ + more@.subrange(0, i as int));
        }
    }
    proof {
        assert(more@.subrange(0, more@.len() as int) =~= more@);
    }
}

/// Lays out the children side by side and fits the result to the width.
fn container_cells_exec(
    children: &Vec<Widget>,
    width: Option<usize>,
    style: Style,
    alignment: Alignment,
) -> (out: Vec<Cell>)
    ensures
        out@ == container_layout(children@, width, style, alignment),
    decreases *children,
{
    let n = children.len();
    let even = match (alignment, &width) {
        (Alignment::SpaceEvenly, Some(_)) => n > 0,
        _ => false,
    };
    let fixed: usize = match &width {
        Some(w) => *w,
        None => 0,
    };
    let mut content: Vec<Cell> = Vec::new();
    let mut i: usize = 0;
    while i < n
        invariant
            i <= n,
            n == children@.len(),
            even == (alignment == Alignment::SpaceEvenly && width is Some && n > 0),
            width is Some ==> fixed == width->0,
            content@ == children_cells(children@, width, style, alignment, i as int),
        decreases n - i,
    {
        let slot: usize = if even {
            let base = fixed / n;
            let rem = fixed % n;
            proof {
                Rect::lemma_part_bounds(fixed as int, n as int, i as int);
            }
            base + if i < rem {
                1
            } else {
                0
            }
        } else {
            widget_width_exec(&children[i])
        };
        proof {
            if !even {
                lemma_widget_width_nonneg(children@[i as int]);
            }
        }
        let cells = widget_cells_exec(&children[i], slot, style);
        append_cells(&mut content, &cells);
        proof {
            assert(content@ =~= children_cells(children@, width, style, alignment, i + 1));
        }
        i = i + 1;
    }
    let out_width: usize = match &width {
        Some(w) => *w,
        None => content.len(),
    };
    if out_width == 0 {
        let empty: Vec<Cell> = Vec::new();
        proof {
            assert(empty@ =~= container_layout(children@, width, style, alignment));
        }
        return empty;
    }
    let pad = Cell::new(' ').with_style(style);
    fit_content(content, out_width, alignment, pad)
}

} // verus!
