//! The document builder: reconstructs the nested tree of block and inline
//! elements from the flat, ordered event stream handed over by the external
//! markdown tokenizer, using an explicit stack of in-progress frames.
//! Malformed nesting (an end event with nothing open, an item closed outside
//! a list) is recovered from locally by dropping the offending fragment; the
//! rest of the document is unaffected.
use vstd::prelude::*;
use crate::markdown::{
    element_seq_view, element_view, inline_seq_view, inline_view, item_seq_view, item_view,
    cell_seq_view, row_seq_view, lemma_element_seq_view, lemma_inline_seq_view,
    lemma_item_seq_view, lemma_cell_seq_view, lemma_row_seq_view, text_of_inlines,
    ElementV, InlineElement, InlineV, ListItem, ListItemV, PageElement,
};
use crate::markdown::render_inline_elements_text;

verus! {

/// The construct a start event opens, as handed over by the tokenizer.
/// String payloads are carried verbatim; an empty language token or title
/// stands for none.
#[derive(Debug)]
pub enum StartKind {
    Heading(u32),
    Paragraph,
    /// A fenced code block with its language token (possibly empty).
    FencedCode(String),
    IndentedCode,
    /// A list; the payload is the first number of an ordered list,
    /// `None` for a bullet list.
    List(Option<u64>),
    Item,
    BlockQuote,
    Table,
    TableHead,
    TableRow,
    TableCell,
    Emphasis,
    Strong,
    Strikethrough,
    Link { url: String, title: String },
    Image { url: String, title: String },
    /// Any construct this model does not distinguish; the builder treats
    /// it as a paragraph-like frame.
    Other,
}

/// One event of the flat stream produced by the external tokenizer.
#[derive(Debug)]
pub enum MdEvent {
    Start(StartKind),
    End,
    Text(String),
    Code(String),
    SoftBreak,
    HardBreak,
    Rule,
    Html(String),
}

/// The kind of an in-progress frame, after normalizing the start event.
#[derive(Debug)]
pub enum FrameKind {
    Heading(u32),
    Paragraph,
    CodeBlock(Option<String>),
    List(bool),
    Item,
    BlockQuote,
    Table,
    TableHead,
    TableRow,
    TableCell,
    Emphasis(u8),
    Strikethrough,
    Link { url: String, title: Option<String> },
    Image { url: String, title: Option<String> },
}

/// Mathematical view of a frame kind.
pub enum FrameKindV {
    Heading(u32),
    Paragraph,
    CodeBlock(Option<Seq<char>>),
    List(bool),
    Item,
    BlockQuote,
    Table,
    TableHead,
    TableRow,
    TableCell,
    Emphasis(u8),
    Strikethrough,
    Link { url: Seq<char>, title: Option<Seq<char>> },
    Image { url: Seq<char>, title: Option<Seq<char>> },
}

/// An in-progress frame: the kind of construct being assembled together
/// with its accumulating buffers. Only the buffers its kind calls for are
/// ever filled; the others stay empty.
#[derive(Debug)]
pub struct ElementBuilder {
    pub kind: FrameKind,
    pub inline_content: Vec<InlineElement>,
    pub block_content: Vec<PageElement>,
    pub list_items: Vec<ListItem>,
    /// Cells of the table row or head row being assembled.
    pub cells: Vec<Vec<InlineElement>>,
    /// Finished header cells of a table frame.
    pub headers: Vec<Vec<InlineElement>>,
    /// Finished body rows of a table frame.
    pub rows: Vec<Vec<Vec<InlineElement>>>,
}

/// Mathematical view of an in-progress frame.
#[verifier::ext_equal]
pub struct FrameV {
    pub kind: FrameKindV,
    pub inline_content: Seq<InlineV>,
    pub block_content: Seq<ElementV>,
    pub list_items: Seq<ListItemV>,
    pub cells: Seq<Seq<InlineV>>,
    pub headers: Seq<Seq<InlineV>>,
    pub rows: Seq<Seq<Seq<InlineV>>>,
}

/// View of an optional string.
pub open spec fn opt_string_view(o: Option<String>) -> Option<Seq<char>> {
    match o {
        Some(s) => Some(s@),
        None => None,
    }
}

/// View of a frame kind.
pub open spec fn kind_view(k: FrameKind) -> FrameKindV {
    match k {
        FrameKind::Heading(l) => FrameKindV::Heading(l),
        FrameKind::Paragraph => FrameKindV::Paragraph,
        FrameKind::CodeBlock(lang) => FrameKindV::CodeBlock(opt_string_view(lang)),
        FrameKind::List(ordered) => FrameKindV::List(ordered),
        FrameKind::Item => FrameKindV::Item,
        FrameKind::BlockQuote => FrameKindV::BlockQuote,
        FrameKind::Table => FrameKindV::Table,
        FrameKind::TableHead => FrameKindV::TableHead,
        FrameKind::TableRow => FrameKindV::TableRow,
        FrameKind::TableCell => FrameKindV::TableCell,
        FrameKind::Emphasis(l) => FrameKindV::Emphasis(l),
        FrameKind::Strikethrough => FrameKindV::Strikethrough,
        FrameKind::Link { url, title } => FrameKindV::Link {
            url: url@,
            title: opt_string_view(title),
        },
        FrameKind::Image { url, title } => FrameKindV::Image {
            url: url@,
            title: opt_string_view(title),
        },
    }
}

/// View of a frame.
pub open spec fn frame_view(b: ElementBuilder) -> FrameV {
    FrameV {
        kind: kind_view(b.kind),
        inline_content: inline_seq_view(b.inline_content@),
        block_content: element_seq_view(b.block_content@),
        list_items: item_seq_view(b.list_items@),
        cells: cell_seq_view(b.cells@),
        headers: cell_seq_view(b.headers@),
        rows: row_seq_view(b.rows@),
    }
}

/// View of the frame stack.
pub open spec fn frame_seq_view(s: Seq<ElementBuilder>) -> Seq<FrameV> {
    Seq::new(s.len(), |i: int| frame_view(s[i]))
}

/// The whole state of the builder: the stack of open frames and the
/// finished top-level elements, in document order.
#[verifier::ext_equal]
pub struct BuildStateV {
    pub stack: Seq<FrameV>,
    pub out: Seq<ElementV>,
}

/// View of the builder's executable state.
pub open spec fn state_view(stack: Seq<ElementBuilder>, out: Seq<PageElement>) -> BuildStateV {
    BuildStateV { stack: frame_seq_view(stack), out: element_seq_view(out) }
}

/// The state the builder starts from: nothing open, nothing produced.
pub open spec fn init_state() -> BuildStateV {
    BuildStateV { stack: Seq::empty(), out: Seq::empty() }
}

/// The fresh frame a start event pushes: the kind is normalized (an empty
/// language token or title becomes none, an ordered list is one that was
/// started with a number) and every buffer begins empty.
pub open spec fn new_frame(k: StartKind) -> FrameV {
    FrameV {
        kind: match k {
            StartKind::Heading(l) => FrameKindV::Heading(l),
            StartKind::Paragraph => FrameKindV::Paragraph,
            StartKind::FencedCode(lang) => FrameKindV::CodeBlock(
                if lang@.len() == 0 {
                    None
                } else {
                    Some(lang@)
                },
            ),
            StartKind::IndentedCode => FrameKindV::CodeBlock(None),
            StartKind::List(start) => FrameKindV::List(start is Some),
            StartKind::Item => FrameKindV::Item,
            StartKind::BlockQuote => FrameKindV::BlockQuote,
            StartKind::Table => FrameKindV::Table,
            StartKind::TableHead => FrameKindV::TableHead,
            StartKind::TableRow => FrameKindV::TableRow,
            StartKind::TableCell => FrameKindV::TableCell,
            StartKind::Emphasis => FrameKindV::Emphasis(1),
            StartKind::Strong => FrameKindV::Emphasis(2),
            StartKind::Strikethrough => FrameKindV::Strikethrough,
            StartKind::Link { url, title } => FrameKindV::Link {
                url: url@,
                title: if title@.len() == 0 {
                    None
                } else {
                    Some(title@)
                },
            },
            StartKind::Image { url, title } => FrameKindV::Image {
                url: url@,
                title: if title@.len() == 0 {
                    None
                } else {
                    Some(title@)
                },
            },
            StartKind::Other => FrameKindV::Paragraph,
        },
        inline_content: Seq::empty(),
        block_content: Seq::empty(),
        list_items: Seq::empty(),
        cells: Seq::empty(),
        headers: Seq::empty(),
        rows: Seq::empty(),
    }
}

/// The raw text of a code block: its text fragments concatenated in order;
/// any other inline content that leaked in contributes nothing.
pub open spec fn code_text_of(s: Seq<InlineV>) -> Seq<char>
    decreases s,
{
    if s.len() == 0 {
        Seq::empty()
    } else {
        (match s[0] {
            InlineV::Text(t) => t,
            _ => Seq::empty(),
        }) + code_text_of(s.drop_first())
    }
}

/// What a frame finalizes into, if anything: headings always finalize,
/// paragraphs only when non-empty, code blocks concatenate their text, and
/// the frame kinds that are resolved by routing (items, inline composites,
/// table parts) finalize into nothing here.
pub open spec fn finish_frame(f: FrameV) -> Option<ElementV> {
    match f.kind {
        FrameKindV::Heading(level) => Some(
            ElementV::Heading { level, content: f.inline_content },
        ),
        FrameKindV::Paragraph => if f.inline_content.len() > 0 {
            Some(ElementV::Paragraph { content: f.inline_content })
        } else {
            None
        },
        FrameKindV::CodeBlock(language) => Some(
            ElementV::CodeBlock { language, content: code_text_of(f.inline_content) },
        ),
        FrameKindV::List(ordered) => Some(ElementV::List { items: f.list_items, ordered }),
        FrameKindV::BlockQuote => Some(ElementV::BlockQuote { content: f.block_content }),
        FrameKindV::Table => Some(ElementV::Table { headers: f.headers, rows: f.rows }),
        _ => None,
    }
}

/// Appends an inline element to the topmost frame; with nothing open, the
/// event is dropped.
pub open spec fn add_inline_top(st: BuildStateV, x: InlineV) -> BuildStateV {
    if st.stack.len() == 0 {
        st
    } else {
        let top = st.stack.last();
        BuildStateV {
            stack: st.stack.update(
                st.stack.len() - 1,
                FrameV { inline_content: top.inline_content.push(x), ..top },
            ),
            out: st.out,
        }
    }
}

/// Routes a finalized element: to the top-level output when nothing is
/// open, into an enclosing blockquote's child buffer, and nowhere else.
pub open spec fn emit_element(stack: Seq<FrameV>, out: Seq<ElementV>, el: ElementV) -> BuildStateV {
    if stack.len() == 0 {
        BuildStateV { stack, out: out.push(el) }
    } else {
        let top = stack.last();
        if top.kind is BlockQuote {
            BuildStateV {
                stack: stack.update(
                    stack.len() - 1,
                    FrameV { block_content: top.block_content.push(el), ..top },
                ),
                out,
            }
        } else {
            BuildStateV { stack, out }
        }
    }
}

/// What closing the topmost frame does. Items are routed into the parent
/// list (or dropped), inline composites are resolved into the parent's
/// inline buffer — links and images flattening their content to plain text
/// here — table cells, head rows and body rows are routed into their table
/// parent, and every other kind finalizes into an element.
pub open spec fn close_top(st: BuildStateV) -> BuildStateV {
    if st.stack.len() == 0 {
        st
    } else {
        let f = st.stack.last();
        let rest = st.stack.drop_last();
        match f.kind {
            FrameKindV::Item => {
                if rest.len() > 0 && rest.last().kind is List {
                    let p = rest.last();
                    let item = ListItemV {
                        content: f.inline_content,
                        sub_items: Seq::empty(),
                        checked: None,
                    };
                    BuildStateV {
                        stack: rest.update(
                            rest.len() - 1,
                            FrameV { list_items: p.list_items.push(item), ..p },
                        ),
                        out: st.out,
                    }
                } else {
                    BuildStateV { stack: rest, out: st.out }
                }
            },
            FrameKindV::Emphasis(level) => close_inline(
                rest,
                st.out,
                InlineV::Emphasis { level, content: f.inline_content },
            ),
            FrameKindV::Strikethrough => close_inline(
                rest,
                st.out,
                InlineV::Strikethrough { content: f.inline_content },
            ),
            FrameKindV::Link { url, title } => close_inline(
                rest,
                st.out,
                InlineV::Link { text: text_of_inlines(f.inline_content), url, title },
            ),
            FrameKindV::Image { url, title } => close_inline(
                rest,
                st.out,
                InlineV::Image { alt: text_of_inlines(f.inline_content), url, title },
            ),
            FrameKindV::TableCell => {
                if rest.len() > 0 && (rest.last().kind is TableHead || rest.last().kind
                    is TableRow) {
                    let p = rest.last();
                    BuildStateV {
                        stack: rest.update(
                            rest.len() - 1,
                            FrameV { cells: p.cells.push(f.inline_content), ..p },
                        ),
                        out: st.out,
                    }
                } else {
                    BuildStateV { stack: rest, out: st.out }
                }
            },
            FrameKindV::TableHead => {
                if rest.len() > 0 && rest.last().kind is Table {
                    let p = rest.last();
                    BuildStateV {
                        stack: rest.update(
                            rest.len() - 1,
                            FrameV { headers: p.headers + f.cells, ..p },
                        ),
                        out: st.out,
                    }
                } else {
                    BuildStateV { stack: rest, out: st.out }
                }
            },
            FrameKindV::TableRow => {
                if rest.len() > 0 && rest.last().kind is Table {
                    let p = rest.last();
                    BuildStateV {
                        stack: rest.update(
                            rest.len() - 1,
                            FrameV { rows: p.rows.push(f.cells), ..p },
                        ),
                        out: st.out,
                    }
                } else {
                    BuildStateV { stack: rest, out: st.out }
                }
            },
            _ => {
                match finish_frame(f) {
                    Some(el) => emit_element(rest, st.out, el),
                    None => BuildStateV { stack: rest, out: st.out },
                }
            },
        }
    }
}

/// Resolves a closed inline composite into the parent frame's inline
/// buffer; with no parent left the fragment is dropped.
pub open spec fn close_inline(rest: Seq<FrameV>, out: Seq<ElementV>, x: InlineV) -> BuildStateV {
    if rest.len() == 0 {
        BuildStateV { stack: rest, out }
    } else {
        let p = rest.last();
        BuildStateV {
            stack: rest.update(
                rest.len() - 1,
                FrameV { inline_content: p.inline_content.push(x), ..p },
            ),
            out,
        }
    }
}

/// The transition of the builder on one event.
pub open spec fn step(st: BuildStateV, ev: MdEvent) -> BuildStateV {
    match ev {
        MdEvent::Start(k) => BuildStateV { stack: st.stack.push(new_frame(k)), out: st.out },
        MdEvent::End => close_top(st),
        MdEvent::Text(s) => add_inline_top(st, InlineV::Text(s@)),
        MdEvent::Code(s) => add_inline_top(st, InlineV::Code(s@)),
        MdEvent::SoftBreak => add_inline_top(st, InlineV::SoftBreak),
        MdEvent::HardBreak => add_inline_top(st, InlineV::HardBreak),
        MdEvent::Rule => BuildStateV {
            stack: st.stack,
            out: st.out.push(ElementV::HorizontalRule),
        },
        MdEvent::Html(s) => BuildStateV {
            stack: st.stack,
            out: st.out.push(ElementV::Html { content: s@ }),
        },
    }
}

/// Runs the builder over an event sequence from a given state.
pub open spec fn run(events: Seq<MdEvent>, st: BuildStateV) -> BuildStateV
    decreases events,
{
    if events.len() == 0 {
        st
    } else {
        run(events.drop_first(), step(st, events[0]))
    }
}

/// The top-level elements the builder produces for an event sequence:
/// frames still open when the stream ends are discarded.
pub open spec fn build_spec(events: Seq<MdEvent>) -> Seq<ElementV> {
    run(events, init_state()).out
}

pub proof fn lemma_inline_seq_view_push(s: Seq<InlineElement>, e: InlineElement)
    ensures
        inline_seq_view(s.push(e)) == inline_seq_view(s).push(inline_view(e)),
{
    lemma_inline_seq_view(s.push(e));
    lemma_inline_seq_view(s);
    assert(inline_seq_view(s.push(e)) =~= inline_seq_view(s).push(inline_view(e)));
}

pub proof fn lemma_item_seq_view_push(s: Seq<ListItem>, e: ListItem)
    ensures
        item_seq_view(s.push(e)) == item_seq_view(s).push(item_view(e)),
{
    lemma_item_seq_view(s.push(e));
    lemma_item_seq_view(s);
    assert(item_seq_view(s.push(e)) =~= item_seq_view(s).push(item_view(e)));
}

pub proof fn lemma_cell_seq_view_push(s: Seq<Vec<InlineElement>>, e: Vec<InlineElement>)
    ensures
        cell_seq_view(s.push(e)) == cell_seq_view(s).push(inline_seq_view(e@)),
{
    lemma_cell_seq_view(s.push(e));
    lemma_cell_seq_view(s);
    assert(cell_seq_view(s.push(e)) =~= cell_seq_view(s).push(inline_seq_view(e@)));
}

pub proof fn lemma_cell_seq_view_concat(a: Seq<Vec<InlineElement>>, b: Seq<Vec<InlineElement>>)
    ensures
        cell_seq_view(a + b) == cell_seq_view(a) + cell_seq_view(b),
{
    lemma_cell_seq_view(a + b);
    lemma_cell_seq_view(a);
    lemma_cell_seq_view(b);
    assert(cell_seq_view(a + b) =~= cell_seq_view(a) + cell_seq_view(b));
}

pub proof fn lemma_row_seq_view_push(s: Seq<Vec<Vec<InlineElement>>>, e: Vec<Vec<InlineElement>>)
    ensures
        row_seq_view(s.push(e)) == row_seq_view(s).push(cell_seq_view(e@)),
{
    lemma_row_seq_view(s.push(e));
    lemma_row_seq_view(s);
    assert(row_seq_view(s.push(e)) =~= row_seq_view(s).push(cell_seq_view(e@)));
}

pub proof fn lemma_element_seq_view_push(s: Seq<PageElement>, e: PageElement)
    ensures
        element_seq_view(s.push(e)) == element_seq_view(s).push(element_view(e)),
{
    lemma_element_seq_view(s.push(e));
    lemma_element_seq_view(s);
    assert(element_seq_view(s.push(e)) =~= element_seq_view(s).push(element_view(e)));
}

impl ElementBuilder {
    /// A fresh frame for the construct a start event opens.
    pub fn from_kind(k: &StartKind) -> (b: ElementBuilder)
        ensures
            frame_view(b) == new_frame(*k),
    {
        let kind = match k {
            StartKind::Heading(l) => FrameKind::Heading(*l),
            StartKind::Paragraph => FrameKind::Paragraph,
            StartKind::FencedCode(lang) => FrameKind::CodeBlock(
                if lang.as_str().is_empty() {
                    None
                } else {
                    Some(lang.clone())
                },
            ),
            StartKind::IndentedCode => FrameKind::CodeBlock(None),
            StartKind::List(start) => FrameKind::List(start.is_some()),
            StartKind::Item => FrameKind::Item,
            StartKind::BlockQuote => FrameKind::BlockQuote,
            StartKind::Table => FrameKind::Table,
            StartKind::TableHead => FrameKind::TableHead,
            StartKind::TableRow => FrameKind::TableRow,
            StartKind::TableCell => FrameKind::TableCell,
            StartKind::Emphasis => FrameKind::Emphasis(1),
            StartKind::Strong => FrameKind::Emphasis(2),
            StartKind::Strikethrough => FrameKind::Strikethrough,
            StartKind::Link { url, title } => FrameKind::Link {
                url: url.clone(),
                title: if title.as_str().is_empty() {
                    None
                } else {
                    Some(title.clone())
                },
            },
            StartKind::Image { url, title } => FrameKind::Image {
                url: url.clone(),
                title: if title.as_str().is_empty() {
                    None
                } else {
                    Some(title.clone())
                },
            },
            StartKind::Other => FrameKind::Paragraph,
        };
        let b = ElementBuilder {
            kind,
            inline_content: Vec::new(),
            block_content: Vec::new(),
            list_items: Vec::new(),
            cells: Vec::new(),
            headers: Vec::new(),
            rows: Vec::new(),
        };
        proof {
            assert(frame_view(b) =~= new_frame(*k));
        }
        b
    }

    /// Appends an inline element to this frame's inline buffer.
    pub fn add_inline(&mut self, elem: InlineElement)
        ensures
            frame_view(*final(self)) == (FrameV {
                inline_content: frame_view(*old(self)).inline_content.push(inline_view(elem)),
                ..frame_view(*old(self))
            }),
    {
        proof {
            lemma_inline_seq_view_push(self.inline_content@, elem);
        }
        self.inline_content.push(elem);
        proof {
            assert(frame_view(*self) =~= (FrameV {
                inline_content: frame_view(*old(self)).inline_content.push(inline_view(elem)),
                ..frame_view(*old(self))
            }));
        }
    }

    /// Accepts a finalized child element: only a blockquote frame keeps it,
    /// every other kind ignores block children.
    pub fn add_child(&mut self, child: Option<PageElement>)
        ensures
            frame_view(*final(self)) == (match child {
                Some(el) => if frame_view(*old(self)).kind is BlockQuote {
                    FrameV {
                        block_content: frame_view(*old(self)).block_content.push(element_view(el)),
                        ..frame_view(*old(self))
                    }
                } else {
                    frame_view(*old(self))
                },
                None => frame_view(*old(self)),
            }),
    {
        match child {
            Some(el) => {
                match &self.kind {
                    FrameKind::BlockQuote => {
                        proof {
                            lemma_element_seq_view_push(self.block_content@, el);
                        }
                        self.block_content.push(el);
                        proof {
                            assert(frame_view(*self) =~= (FrameV {
                                block_content: frame_view(*old(self)).block_content.push(
                                    element_view(el),
                                ),
                                ..frame_view(*old(self))
                            }));
                        }
                    },
                    _ => {},
                }
            },
            None => {},
        }
    }

    /// Finalizes this frame into a page element, per `finish_frame`.
    pub fn build(self) -> (r: Option<PageElement>)
        ensures
            (match r {
                Some(el) => finish_frame(frame_view(self)) == Some(element_view(el)),
                None => finish_frame(frame_view(self)) is None,
            }),
    {
        let ElementBuilder { kind, inline_content, block_content, list_items, cells, headers, rows }
            = self;
        match kind {
            FrameKind::Heading(level) => Some(
                PageElement::Heading { level, content: inline_content },
            ),
            FrameKind::Paragraph => {
                if inline_content.len() > 0 {
                    Some(PageElement::Paragraph { content: inline_content })
                } else {
                    None
                }
            },
            FrameKind::CodeBlock(language) => {
                let content = code_text(&inline_content);
                Some(PageElement::CodeBlock { language, content })
            },
            FrameKind::List(ordered) => Some(PageElement::List { items: list_items, ordered }),
            FrameKind::BlockQuote => Some(PageElement::BlockQuote { content: block_content }),
            FrameKind::Table => Some(PageElement::Table { headers, rows }),
            _ => None,
        }
    }
}

/// Concatenates the text fragments of a code block's inline buffer.
fn code_text(inlines: &Vec<InlineElement>) -> (r: String)
    ensures
        r@ == code_text_of(inline_seq_view(inlines@)),
{
    let ghost vs = inline_seq_view(inlines@);
    proof {
        lemma_inline_seq_view(inlines@);
        assert(vs.skip(0) =~= vs);
    }
    let mut out: Vec<char> = Vec::new();
    let mut i: usize = 0;
    while i < inlines.len()
        invariant
            i <= inlines@.len(),
            vs == inline_seq_view(inlines@),
            vs.len() == inlines@.len(),
            out@ + code_text_of(vs.skip(i as int)) == code_text_of(vs),
        decreases inlines@.len() - i,
    {
        let ghost i0 = i as int;
        let ghost out_pre = out@;
        proof {
            lemma_inline_seq_view(inlines@);
            assert(vs.skip(i0)[0] == vs[i0]);
            assert(vs.skip(i0).drop_first() =~= vs.skip(i0 + 1));
            assert(code_text_of(vs.skip(i0)) == (match vs[i0] {
                InlineV::Text(t) => t,
                _ => Seq::empty(),
            }) + code_text_of(vs.skip(i0 + 1)));
        }
        match &inlines[i] {
            InlineElement::Text(s) => {
                let cs = crate::text::str_chars(s.as_str());
                let mut j: usize = 0;
                while j < cs.len()
                    invariant
                        j <= cs@.len(),
                        out@ == out_pre + cs@.take(j as int),
                    decreases cs@.len() - j,
                {
                    out.push(cs[j]);
                    proof {
                        assert(out@ =~= out_pre + cs@.take(j + 1 as int));
                    }
                    j = j + 1;
                }
                proof {
                    assert(cs@.take(cs@.len() as int) =~= cs@);
                }
            },
            _ => {},
        }
        i = i + 1;
        proof {
            assert(out@ + code_text_of(vs.skip(i0 + 1)) =~= out_pre + code_text_of(vs.skip(i0)));
        }
    }
    proof {
        assert(vs.skip(vs.len() as int) =~= Seq::<InlineV>::empty());
        assert(out@ =~= code_text_of(vs));
    }
    crate::text::chars_to_string(&out)
}

/// Applies one event to the executable builder state, matching `step`.
fn apply_event(stack: &mut Vec<ElementBuilder>, out: &mut Vec<PageElement>, ev: &MdEvent)
    ensures
        state_view(final(stack)@, final(out)@) == step(state_view(old(stack)@, old(out)@), *ev),
{
    let ghost st0 = state_view(old(stack)@, old(out)@);
    match ev {
        MdEvent::Start(k) => {
            let b = ElementBuilder::from_kind(k);
            stack.push(b);
            proof {
                assert(state_view(stack@, out@) =~= step(st0, *ev));
            }
        },
        MdEvent::End => {
            apply_end(stack, out);
        },
        MdEvent::Text(s) => {
            apply_inline(stack, InlineElement::Text(s.clone()));
            proof {
                assert(state_view(stack@, out@) =~= step(st0, *ev));
            }
        },
        MdEvent::Code(s) => {
            apply_inline(stack, InlineElement::Code(s.clone()));
            proof {
                assert(state_view(stack@, out@) =~= step(st0, *ev));
            }
        },
        MdEvent::SoftBreak => {
            apply_inline(stack, InlineElement::SoftBreak);
            proof {
                assert(state_view(stack@, out@) =~= step(st0, *ev));
            }
        },
        MdEvent::HardBreak => {
            apply_inline(stack, InlineElement::HardBreak);
            proof {
                assert(state_view(stack@, out@) =~= step(st0, *ev));
            }
        },
        MdEvent::Rule => {
            proof {
                lemma_element_seq_view_push(out@, PageElement::HorizontalRule);
            }
            out.push(PageElement::HorizontalRule);
            proof {
                assert(state_view(stack@, out@) =~= step(st0, *ev));
            }
        },
        MdEvent::Html(s) => {
            let el = PageElement::Html { content: s.clone() };
            proof {
                lemma_element_seq_view_push(out@, el);
            }
            out.push(el);
            proof {
                assert(state_view(stack@, out@) =~= step(st0, *ev));
            }
        },
    }
}

/// Appends an inline element to the topmost frame, dropping it when
/// nothing is open.
fn apply_inline(stack: &mut Vec<ElementBuilder>, elem: InlineElement)
    ensures
        frame_seq_view(final(stack)@) == add_inline_top(
            BuildStateV { stack: frame_seq_view(old(stack)@), out: Seq::empty() },
            inline_view(elem),
        ).stack,
{
    let ghost s0 = frame_seq_view(old(stack)@);
    match stack.pop() {
        Some(mut b) => {
            b.add_inline(elem);
            stack.push(b);
            proof {
                assert(frame_seq_view(stack@) =~= add_inline_top(
                    BuildStateV { stack: s0, out: Seq::empty() },
                    inline_view(elem),
                ).stack);
            }
        },
        None => {
            proof {
                assert(frame_seq_view(stack@) =~= s0);
            }
        },
    }
}

/// Closes the topmost frame, matching `close_top`; an end event with
/// nothing open is dropped.
fn apply_end(stack: &mut Vec<ElementBuilder>, out: &mut Vec<PageElement>)
    ensures
        state_view(final(stack)@, final(out)@) == close_top(
            state_view(old(stack)@, old(out)@),
        ),
{
    let ghost st0 = state_view(old(stack)@, old(out)@);
    let popped = stack.pop();
    match popped {
        None => {
            proof {
                assert(state_view(stack@, out@) =~= st0);
            }
        },
        Some(b) => {
            let ElementBuilder {
                kind,
                mut inline_content,
                block_content,
                list_items,
                mut cells,
                headers,
                rows,
            } = b;
            match kind {
                FrameKind::Item => {
                    match stack.pop() {
                        Some(mut p) => {
                            let is_list = match &p.kind {
                                FrameKind::List(_) => true,
                                _ => false,
                            };
                            if is_list {
                                let item = ListItem {
                                    content: inline_content,
                                    sub_items: Vec::new(),
                                    checked: None,
                                };
                                proof {
                                    lemma_item_seq_view_push(p.list_items@, item);
                                    assert(item_view(item).sub_items =~= Seq::<ListItemV>::empty());
                                }
                                p.list_items.push(item);
                            }
                            stack.push(p);
                            proof {
                                assert(state_view(stack@, out@) =~= close_top(st0));
                            }
                        },
                        None => {
                            proof {
                                assert(state_view(stack@, out@) =~= close_top(st0));
                            }
                        },
                    }
                },
                FrameKind::Emphasis(level) => {
                    apply_close_inline(
                        stack,
                        InlineElement::Emphasis { level, content: inline_content },
                    );
                    proof {
                        assert(state_view(stack@, out@) =~= close_top(st0));
                    }
                },
                FrameKind::Strikethrough => {
                    apply_close_inline(
                        stack,
                        InlineElement::Strikethrough { content: inline_content },
                    );
                    proof {
                        assert(state_view(stack@, out@) =~= close_top(st0));
                    }
                },
                FrameKind::Link { url, title } => {
                    let text = render_inline_elements_text(&inline_content);
                    apply_close_inline(stack, InlineElement::Link { text, url, title });
                    proof {
                        assert(state_view(stack@, out@) =~= close_top(st0));
                    }
                },
                FrameKind::Image { url, title } => {
                    let alt = render_inline_elements_text(&inline_content);
                    apply_close_inline(stack, InlineElement::Image { alt, url, title });
                    proof {
                        assert(state_view(stack@, out@) =~= close_top(st0));
                    }
                },
                FrameKind::TableCell => {
                    match stack.pop() {
                        Some(mut p) => {
                            let is_row = match &p.kind {
                                FrameKind::TableHead => true,
                                FrameKind::TableRow => true,
                                _ => false,
                            };
                            if is_row {
                                proof {
                                    lemma_cell_seq_view_push(p.cells@, inline_content);
                                }
                                p.cells.push(inline_content);
                            }
                            stack.push(p);
                            proof {
                                assert(state_view(stack@, out@) =~= close_top(st0));
                            }
                        },
                        None => {
                            proof {
                                assert(state_view(stack@, out@) =~= close_top(st0));
                            }
                        },
                    }
                },
                FrameKind::TableHead => {
                    match stack.pop() {
                        Some(mut p) => {
                            let is_table = match &p.kind {
                                FrameKind::Table => true,
                                _ => false,
                            };
                            if is_table {
                                proof {
                                    lemma_cell_seq_view_concat(p.headers@, cells@);
                                }
                                p.headers.append(&mut cells);
                            }
                            stack.push(p);
                            proof {
                                assert(state_view(stack@, out@) =~= close_top(st0));
                            }
                        },
                        None => {
                            proof {
                                assert(state_view(stack@, out@) =~= close_top(st0));
                            }
                        },
                    }
                },
                FrameKind::TableRow => {
                    match stack.pop() {
                        Some(mut p) => {
                            let is_table = match &p.kind {
                                FrameKind::Table => true,
                                _ => false,
                            };
                            if is_table {
                                proof {
                                    lemma_row_seq_view_push(p.rows@, cells);
                                }
                                p.rows.push(cells);
                            }
                            stack.push(p);
                            proof {
                                assert(state_view(stack@, out@) =~= close_top(st0));
                            }
                        },
                        None => {
                            proof {
                                assert(state_view(stack@, out@) =~= close_top(st0));
                            }
                        },
                    }
                },
                k => {
                    let builder = ElementBuilder {
                        kind: k,
                        inline_content,
                        block_content,
                        list_items,
                        cells,
                        headers,
                        rows,
                    };
                    let element = builder.build();
                    if stack.len() == 0 {
                        match element {
                            Some(el) => {
                                proof {
                                    lemma_element_seq_view_push(out@, el);
                                }
                                out.push(el);
                                proof {
                                    assert(state_view(stack@, out@) =~= close_top(st0));
                                }
                            },
                            None => {
                                proof {
                                    assert(state_view(stack@, out@) =~= close_top(st0));
                                }
                            },
                        }
                    } else {
                        match stack.pop() {
                            Some(mut p) => {
                                p.add_child(element);
                                stack.push(p);
                                proof {
                                    assert(state_view(stack@, out@) =~= close_top(st0));
                                }
                            },
                            None => {
                                proof {
                                    assert(false);
                                }
                            },
                        }
                    }
                },
            }
        },
    }
}

/// Resolves a closed inline composite into the new topmost frame's inline
/// buffer; with nothing left open the fragment is dropped.
fn apply_close_inline(stack: &mut Vec<ElementBuilder>, elem: InlineElement)
    ensures
        frame_seq_view(final(stack)@) == close_inline(
            frame_seq_view(old(stack)@),
            Seq::empty(),
            inline_view(elem),
        ).stack,
{
    let ghost s0 = frame_seq_view(old(stack)@);
    match stack.pop() {
        Some(mut p) => {
            p.add_inline(elem);
            stack.push(p);
            proof {
                assert(frame_seq_view(stack@) =~= close_inline(
                    s0,
                    Seq::empty(),
                    inline_view(elem),
                ).stack);
            }
        },
        None => {
            proof {
                assert(frame_seq_view(stack@) =~= s0);
            }
        },
    }
}

/// Builds the ordered sequence of top-level page elements from the flat
/// event stream, per the stack machine `run` describes.
pub fn get_page_structured(events: &Vec<MdEvent>) -> (r: Vec<PageElement>)
    ensures
        element_seq_view(r@) == build_spec(events@),
{
    let mut stack: Vec<ElementBuilder> = Vec::new();
    let mut out: Vec<PageElement> = Vec::new();
    proof {
        assert(state_view(stack@, out@) =~= init_state());
        assert(events@.skip(0) =~= events@);
    }
    let mut i: usize = 0;
    while i < events.len()
        invariant
            i <= events@.len(),
            run(events@.skip(i as int), state_view(stack@, out@)) == run(
                events@,
                init_state(),
            ),
        decreases events@.len() - i,
    {
        let ghost i0 = i as int;
        proof {
            assert(events@.skip(i0)[0] == events@[i0]);
            assert(events@.skip(i0).drop_first() =~= events@.skip(i0 + 1));
        }
        apply_event(&mut stack, &mut out, &events[i]);
        i = i + 1;
    }
    proof {
        assert(events@.skip(events@.len() as int) =~= Seq::<MdEvent>::empty());
    }
    out
}

/// The builder drops an end event that closes nothing: inserting such an
/// event at any point where no frame is open leaves the whole document
/// unchanged, so one malformed construct never disturbs the elements built
/// from the correctly nested rest of the stream.
pub proof fn lemma_orphan_end_ignored(prefix: Seq<MdEvent>, suffix: Seq<MdEvent>)
    requires
        run(prefix, init_state()).stack.len() == 0,
    ensures
        build_spec(prefix + seq![MdEvent::End] + suffix) == build_spec(prefix + suffix),
{
    let st1 = run(prefix, init_state());
    lemma_run_append(prefix, seq![MdEvent::End], init_state());
    assert(run(seq![MdEvent::End], st1) == run(
        seq![MdEvent::End].drop_first(),
        step(st1, MdEvent::End),
    ));
    assert(seq![MdEvent::End].drop_first() =~= Seq::<MdEvent>::empty());
    assert(step(st1, MdEvent::End) == st1);
    lemma_run_append(prefix + seq![MdEvent::End], suffix, init_state());
    lemma_run_append(prefix, suffix, init_state());
}

/// Running the builder over a concatenation runs it over the parts in turn.
pub proof fn lemma_run_append(a: Seq<MdEvent>, b: Seq<MdEvent>, st: BuildStateV)
    ensures
        run(a + b, st) == run(b, run(a, st)),
    decreases a,
{
    if a.len() == 0 {
        assert(a + b =~= b);
    } else {
        assert((a + b)[0] == a[0]);
        assert((a + b).drop_first() =~= a.drop_first() + b);
        lemma_run_append(a.drop_first(), b, step(st, a[0]));
    }
}

} // verus!
