//! The document model: typed inline and block elements reconstructed from
//! markdown, together with their mathematical views, the shared
//! flatten-to-plain-text function, page-title extraction and the slug
//! generator for heading anchors.
use vstd::prelude::*;
use crate::text::{
    chars_to_string, exec_is_ascii_alnum, exec_lower_char, is_ascii_alnum, lower_char, str_chars,
};
use vstd::string::StringExecFns;

verus! {

/// Character-level content embedded in a block element.
#[derive(Debug)]
pub enum InlineElement {
    Text(String),
    Link { text: String, url: String, title: Option<String> },
    Image { alt: String, url: String, title: Option<String> },
    /// `level` 1 renders as emphasis, 2 as strong emphasis.
    Emphasis { level: u8, content: Vec<InlineElement> },
    Code(String),
    SoftBreak,
    HardBreak,
    Strikethrough { content: Vec<InlineElement> },
}

/// One item of a list: inline content, nested sub-items, and the check
/// state for task-list items.
#[derive(Debug)]
pub struct ListItem {
    pub content: Vec<InlineElement>,
    pub sub_items: Vec<ListItem>,
    pub checked: Option<bool>,
}

/// A block-level element of a page.
#[derive(Debug)]
pub enum PageElement {
    Heading { level: u32, content: Vec<InlineElement> },
    Paragraph { content: Vec<InlineElement> },
    CodeBlock { language: Option<String>, content: String },
    List { items: Vec<ListItem>, ordered: bool },
    BlockQuote { content: Vec<PageElement> },
    Table { headers: Vec<Vec<InlineElement>>, rows: Vec<Vec<Vec<InlineElement>>> },
    HorizontalRule,
    Html { content: String },
}

/// Mathematical view of an inline element.
pub enum InlineV {
    Text(Seq<char>),
    Link { text: Seq<char>, url: Seq<char>, title: Option<Seq<char>> },
    Image { alt: Seq<char>, url: Seq<char>, title: Option<Seq<char>> },
    Emphasis { level: u8, content: Seq<InlineV> },
    Code(Seq<char>),
    SoftBreak,
    HardBreak,
    Strikethrough { content: Seq<InlineV> },
}

/// Mathematical view of a list item.
pub struct ListItemV {
    pub content: Seq<InlineV>,
    pub sub_items: Seq<ListItemV>,
    pub checked: Option<bool>,
}

/// Mathematical view of a block element.
pub enum ElementV {
    Heading { level: u32, content: Seq<InlineV> },
    Paragraph { content: Seq<InlineV> },
    CodeBlock { language: Option<Seq<char>>, content: Seq<char> },
    List { items: Seq<ListItemV>, ordered: bool },
    BlockQuote { content: Seq<ElementV> },
    Table { headers: Seq<Seq<InlineV>>, rows: Seq<Seq<Seq<InlineV>>> },
    HorizontalRule,
    Html { content: Seq<char> },
}

/// View of an optional string.
pub open spec fn opt_str_view(o: Option<String>) -> Option<Seq<char>> {
    match o {
        Some(s) => Some(s@),
        None => None,
    }
}

/// View of one inline element.
pub open spec fn inline_view(e: InlineElement) -> InlineV
    decreases e,
{
    match e {
        InlineElement::Text(s) => InlineV::Text(s@),
        InlineElement::Link { text, url, title } => InlineV::Link {
            text: text@,
            url: url@,
            title: opt_str_view(title),
        },
        InlineElement::Image { alt, url, title } => InlineV::Image {
            alt: alt@,
            url: url@,
            title: opt_str_view(title),
        },
        InlineElement::Emphasis { level, content } => InlineV::Emphasis {
            level,
            content: inline_seq_view(content@),
        },
        InlineElement::Code(s) => InlineV::Code(s@),
        InlineElement::SoftBreak => InlineV::SoftBreak,
        InlineElement::HardBreak => InlineV::HardBreak,
        InlineElement::Strikethrough { content } => InlineV::Strikethrough {
            content: inline_seq_view(content@),
        },
    }
}

/// View of a sequence of inline elements.
pub open spec fn inline_seq_view(s: Seq<InlineElement>) -> Seq<InlineV>
    decreases s,
{
    if s.len() == 0 {
        Seq::empty()
    } else {
        seq![inline_view(s[0])] + inline_seq_view(s.drop_first())
    }
}

/// View of one list item.
pub open spec fn item_view(it: ListItem) -> ListItemV
    decreases it,
{
    ListItemV {
        content: inline_seq_view(it.content@),
        sub_items: item_seq_view(it.sub_items@),
        checked: it.checked,
    }
}

/// View of a sequence of list items.
pub open spec fn item_seq_view(s: Seq<ListItem>) -> Seq<ListItemV>
    decreases s,
{
    if s.len() == 0 {
        Seq::empty()
    } else {
        seq![item_view(s[0])] + item_seq_view(s.drop_first())
    }
}

/// View of a sequence of table cells.
pub open spec fn cell_seq_view(s: Seq<Vec<InlineElement>>) -> Seq<Seq<InlineV>>
    decreases s,
{
    if s.len() == 0 {
        Seq::empty()
    } else {
        seq![inline_seq_view(s[0]@)] + cell_seq_view(s.drop_first())
    }
}

/// View of a sequence of table rows.
pub open spec fn row_seq_view(s: Seq<Vec<Vec<InlineElement>>>) -> Seq<Seq<Seq<InlineV>>>
    decreases s,
{
    if s.len() == 0 {
        Seq::empty()
    } else {
        seq![cell_seq_view(s[0]@)] + row_seq_view(s.drop_first())
    }
}

/// View of one block element.
pub open spec fn element_view(e: PageElement) -> ElementV
    decreases e,
{
    match e {
        PageElement::Heading { level, content } => ElementV::Heading {
            level,
            content: inline_seq_view(content@),
        },
        PageElement::Paragraph { content } => ElementV::Paragraph {
            content: inline_seq_view(content@),
        },
        PageElement::CodeBlock { language, content } => ElementV::CodeBlock {
            language: opt_str_view(language),
            content: content@,
        },
        PageElement::List { items, ordered } => ElementV::List {
            items: item_seq_view(items@),
            ordered,
        },
        PageElement::BlockQuote { content } => ElementV::BlockQuote {
            content: element_seq_view(content@),
        },
        PageElement::Table { headers, rows } => ElementV::Table {
            headers: cell_seq_view(headers@),
            rows: row_seq_view(rows@),
        },
        PageElement::HorizontalRule => ElementV::HorizontalRule,
        PageElement::Html { content } => ElementV::Html { content: content@ },
    }
}

/// View of a sequence of block elements.
pub open spec fn element_seq_view(s: Seq<PageElement>) -> Seq<ElementV>
    decreases s,
{
    if s.len() == 0 {
        Seq::empty()
    } else {
        seq![element_view(s[0])] + element_seq_view(s.drop_first())
    }
}

pub broadcast proof fn lemma_inline_seq_view(s: Seq<InlineElement>)
    ensures
        (#[trigger] inline_seq_view(s)).len() == s.len(),
        forall|i: int| 0 <= i < s.len() ==> #[trigger] inline_seq_view(s)[i] == inline_view(s[i]),
    decreases s,
{
    if s.len() > 0 {
        lemma_inline_seq_view(s.drop_first());
    }
}

pub broadcast proof fn lemma_item_seq_view(s: Seq<ListItem>)
    ensures
        (#[trigger] item_seq_view(s)).len() == s.len(),
        forall|i: int| 0 <= i < s.len() ==> #[trigger] item_seq_view(s)[i] == item_view(s[i]),
    decreases s,
{
    if s.len() > 0 {
        lemma_item_seq_view(s.drop_first());
    }
}

pub broadcast proof fn lemma_cell_seq_view(s: Seq<Vec<InlineElement>>)
    ensures
        (#[trigger] cell_seq_view(s)).len() == s.len(),
        forall|i: int| 0 <= i < s.len() ==> #[trigger] cell_seq_view(s)[i] == inline_seq_view(s[i]@),
    decreases s,
{
    if s.len() > 0 {
        lemma_cell_seq_view(s.drop_first());
    }
}

pub broadcast proof fn lemma_row_seq_view(s: Seq<Vec<Vec<InlineElement>>>)
    ensures
        (#[trigger] row_seq_view(s)).len() == s.len(),
        forall|i: int| 0 <= i < s.len() ==> #[trigger] row_seq_view(s)[i] == cell_seq_view(s[i]@),
    decreases s,
{
    if s.len() > 0 {
        lemma_row_seq_view(s.drop_first());
    }
}

pub broadcast proof fn lemma_element_seq_view(s: Seq<PageElement>)
    ensures
        (#[trigger] element_seq_view(s)).len() == s.len(),
        forall|i: int| 0 <= i < s.len() ==> #[trigger] element_seq_view(s)[i] == element_view(s[i]),
    decreases s,
{
    if s.len() > 0 {
        lemma_element_seq_view(s.drop_first());
    }
}

/// The plain text of one inline element: link text and image alt stand in
/// verbatim, emphasis and strikethrough flatten their content, code spans
/// keep their literal text, and both break kinds become a single space.
pub open spec fn text_of_inline(e: InlineV) -> Seq<char>
    decreases e,
{
    match e {
        InlineV::Text(s) => s,
        InlineV::Link { text, .. } => text,
        InlineV::Image { alt, .. } => alt,
        InlineV::Emphasis { content, .. } => text_of_inlines(content),
        InlineV::Code(s) => s,
        InlineV::SoftBreak => seq![' '],
        InlineV::HardBreak => seq![' '],
        InlineV::Strikethrough { content } => text_of_inlines(content),
    }
}

/// The plain text of a sequence of inline elements, in order.
pub open spec fn text_of_inlines(s: Seq<InlineV>) -> Seq<char>
    decreases s,
{
    if s.len() == 0 {
        Seq::empty()
    } else {
        text_of_inline(s[0]) + text_of_inlines(s.drop_first())
    }
}

fn push_inline_text(out: &mut String, e: &InlineElement)
    ensures
        final(out)@ == old(out)@ + text_of_inline(inline_view(*e)),
    decreases e,
{
    match e {
        InlineElement::Text(s) => out.append(s.as_str()),
        InlineElement::Link { text, .. } => out.append(text.as_str()),
        InlineElement::Image { alt, .. } => out.append(alt.as_str()),
        InlineElement::Emphasis { content, .. } => push_inlines_text(out, content),
        InlineElement::Code(s) => out.append(s.as_str()),
        InlineElement::SoftBreak => {
            out.append(" ");
            proof {
                reveal_strlit(" ");
                assert(" "@ =~= seq![' ']);
            }
        },
        InlineElement::HardBreak => {
            out.append(" ");
            proof {
                reveal_strlit(" ");
                assert(" "@ =~= seq![' ']);
            }
        },
        InlineElement::Strikethrough { content } => push_inlines_text(out, content),
    }
}

fn push_inlines_text(out: &mut String, es: &Vec<InlineElement>)
    ensures
        final(out)@ == old(out)@ + text_of_inlines(inline_seq_view(es@)),
    decreases es,
{
    broadcast use lemma_inline_seq_view;

    let ghost vs = inline_seq_view(es@);
    proof {
        assert(vs.skip(0) =~= vs);
    }
    let mut i: usize = 0;
    while i < es.len()
        invariant
            i <= es@.len(),
            vs == inline_seq_view(es@),
            vs.len() == es@.len(),
            out@ + text_of_inlines(vs.skip(i as int)) == old(out)@ + text_of_inlines(vs),
        decreases es@.len() - i,
    {
        let ghost i0 = i as int;
        let ghost out_pre = out@;
        proof {
            assert(vs.skip(i0)[0] == vs[i0]);
            assert(vs.skip(i0).drop_first() =~= vs.skip(i0 + 1));
            lemma_inline_seq_view(es@);
            assert(vs[i0] == inline_view(es@[i0]));
            assert(text_of_inlines(vs.skip(i0)) == text_of_inline(vs[i0]) + text_of_inlines(
                vs.skip(i0 + 1),
            ));
        }
        push_inline_text(out, &es[i]);
        i = i + 1;
        proof {
            assert(out@ + text_of_inlines(vs.skip(i0 + 1)) =~= out_pre + text_of_inlines(
                vs.skip(i0),
            ));
        }
    }
    proof {
        assert(vs.skip(vs.len() as int) =~= Seq::<InlineV>::empty());
        assert(out@ =~= old(out)@ + text_of_inlines(vs));
    }
}

/// Flattens inline content to plain text; shared between slug generation,
/// navigation-link text and page-title extraction.
pub fn render_inline_elements_text(elements: &Vec<InlineElement>) -> (r: String)
    ensures
        r@ == text_of_inlines(inline_seq_view(elements@)),
{
    let mut out = String::new();
    push_inlines_text(&mut out, elements);
    out
}

/// The flattened text of the first heading of a document, if any.
pub open spec fn first_heading_text(s: Seq<ElementV>) -> Option<Seq<char>>
    decreases s,
{
    if s.len() == 0 {
        None
    } else {
        match s[0] {
            ElementV::Heading { content, .. } => Some(text_of_inlines(content)),
            _ => first_heading_text(s.drop_first()),
        }
    }
}

/// The title of a page: the flattened text of its first heading, or a
/// fixed placeholder when the page has no heading at all.
pub open spec fn page_title_of(s: Seq<ElementV>) -> Seq<char> {
    match first_heading_text(s) {
        Some(t) => t,
        None => "A sad page"@,
    }
}

/// Returns the page's title, derived from its first heading.
pub fn get_page_title(elements: &Vec<PageElement>) -> (r: String)
    ensures
        r@ == page_title_of(element_seq_view(elements@)),
{
    broadcast use lemma_element_seq_view;

    let ghost vs = element_seq_view(elements@);
    proof {
        assert(vs.skip(0) =~= vs);
    }
    let mut i: usize = 0;
    while i < elements.len()
        invariant
            i <= elements@.len(),
            vs == element_seq_view(elements@),
            vs.len() == elements@.len(),
            first_heading_text(vs.skip(i as int)) == first_heading_text(vs),
        decreases elements@.len() - i,
    {
        let ghost i0 = i as int;
        proof {
            assert(vs.skip(i0)[0] == vs[i0]);
            assert(vs.skip(i0).drop_first() =~= vs.skip(i0 + 1));
            lemma_element_seq_view(elements@);
            assert(vs[i0] == element_view(elements@[i0]));
        }
        match &elements[i] {
            PageElement::Heading { content, .. } => {
                proof {
                    assert(first_heading_text(vs.skip(i0)) == Some(
                        text_of_inlines(inline_seq_view(content@)),
                    ));
                }
                return render_inline_elements_text(content);
            },
            _ => {
                proof {
                    assert(first_heading_text(vs.skip(i0)) == first_heading_text(
                        vs.skip(i0 + 1),
                    ));
                }
            },
        }
        i = i + 1;
    }
    proof {
        assert(vs.skip(vs.len() as int) =~= Seq::<ElementV>::empty());
    }
    String::from_str("A sad page")
}

/// One left-to-right pass of the slug generator over the characters of `s`
/// starting at index `i`: `pending` records whether a separator run is
/// waiting to be emitted as a single hyphen before the next kept character.
/// Hyphens are only ever emitted between kept characters, so the result
/// carries no leading or trailing hyphen and no hyphen run.
pub open spec fn slug_rec(s: Seq<char>, i: int, pending: bool, out: Seq<char>) -> Seq<char>
    decreases s.len() - i,
{
    if i < 0 || i >= s.len() {
        out
    } else {
        let c = s[i];
        if is_ascii_alnum(c) {
            let out2 = if pending && out.len() > 0 {
                out + seq!['-', lower_char(c)]
            } else {
                out + seq![lower_char(c)]
            };
            slug_rec(s, i + 1, false, out2)
        } else {
            slug_rec(s, i + 1, true, out)
        }
    }
}

/// The URL-fragment identifier of a heading text: ASCII-lowercased, with
/// every run of non-alphanumeric characters collapsed to a single hyphen
/// and leading or trailing hyphens trimmed. Alphanumeric means ASCII
/// letters and digits here: a non-ASCII letter counts as a separator.
pub open spec fn slug_of(s: Seq<char>) -> Seq<char> {
    slug_rec(s, 0, false, Seq::empty())
}

/// Derives the URL-fragment identifier for a heading text.
pub fn slugify(s: &str) -> (r: String)
    ensures
        r@ == slug_of(s@),
{
    let cs = str_chars(s);
    let mut out: Vec<char> = Vec::new();
    let mut pending: bool = false;
    let mut i: usize = 0;
    while i < cs.len()
        invariant
            i <= cs@.len(),
            cs@ == s@,
            slug_rec(s@, i as int, pending, out@) == slug_of(s@),
        decreases cs@.len() - i,
    {
        let c = cs[i];
        let ghost out0 = out@;
        let ghost pend0 = pending;
        let ghost i0 = i as int;
        if exec_is_ascii_alnum(c) {
            if pending && out.len() > 0 {
                out.push('-');
                out.push(exec_lower_char(c));
                proof {
                    assert(out@ =~= out0 + seq!['-', lower_char(s@[i0])]);
                }
            } else {
                out.push(exec_lower_char(c));
                proof {
                    assert(out@ =~= out0 + seq![lower_char(s@[i0])]);
                }
            }
            pending = false;
        } else {
            pending = true;
        }
        i = i + 1;
        proof {
            assert(slug_rec(s@, i as int, pending, out@) == slug_rec(s@, i0, pend0, out0));
        }
    }
    proof {
        assert(slug_rec(s@, cs@.len() as int, pending, out@) == out@);
    }
    chars_to_string(&out)
}

/// A character a slug may contain: a lowercase ASCII letter, a digit, or
/// the hyphen standing for a separator run.
pub open spec fn slug_char_ok(c: char) -> bool {
    ('a' <= c && c <= 'z') || ('0' <= c && c <= '9') || c == '-'
}

/// What "URL-fragment identifier" means of a character sequence: only
/// lowercase alphanumerics and hyphens, no hyphen at either end, and no
/// two hyphens in a row.
pub open spec fn slug_well_formed(out: Seq<char>) -> bool {
    &&& forall|j: int| 0 <= j < out.len() ==> slug_char_ok(#[trigger] out[j])
    &&& (out.len() > 0 ==> out[0] != '-' && out[out.len() - 1] != '-')
    &&& forall|j: int| 0 <= j < out.len() - 1 ==> !(#[trigger] out[j] == '-' && out[j + 1] == '-')
}

proof fn lemma_lower_alnum_ok(c: char)
    requires
        is_ascii_alnum(c),
    ensures
        slug_char_ok(lower_char(c)),
        lower_char(c) != '-',
{
}

proof fn lemma_slug_rec_well_formed(s: Seq<char>, i: int, pending: bool, out: Seq<char>)
    requires
        slug_well_formed(out),
    ensures
        slug_well_formed(slug_rec(s, i, pending, out)),
    decreases s.len() - i,
{
    if 0 <= i < s.len() {
        let c = s[i];
        if is_ascii_alnum(c) {
            lemma_lower_alnum_ok(c);
            let out2 = if pending && out.len() > 0 {
                out + seq!['-', lower_char(c)]
            } else {
                out + seq![lower_char(c)]
            };
            assert(slug_well_formed(out2));
            lemma_slug_rec_well_formed(s, i + 1, false, out2);
        } else {
            lemma_slug_rec_well_formed(s, i + 1, true, out);
        }
    }
}

/// Every slug meets its stated contract: lowercase alphanumerics with
/// separator runs collapsed to single hyphens, and no leading or trailing
/// hyphen.
pub proof fn lemma_slug_well_formed(s: Seq<char>)
    ensures
        slug_well_formed(slug_of(s)),
{
    assert(slug_well_formed(Seq::<char>::empty()));
    lemma_slug_rec_well_formed(s, 0, false, Seq::empty());
}

} // verus!
