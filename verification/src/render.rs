//! The HTML renderer: serializes the document model to an HTML string,
//! element by element in document order. All free text is escaped; fenced
//! code is highlighted best-effort through the injected highlighter with an
//! escaped `<pre><code>` fallback; raw HTML blocks pass through verbatim.
use vstd::prelude::*;
use vstd::string::StringExecFns;
use crate::markdown::{
    element_seq_view, element_view, inline_seq_view, inline_view, item_seq_view, item_view,
    cell_seq_view, row_seq_view, lemma_element_seq_view, lemma_inline_seq_view,
    lemma_item_seq_view, lemma_cell_seq_view, lemma_row_seq_view, text_of_inline, text_of_inlines, ElementV,
    InlineElement, InlineV, ListItem, ListItemV, PageElement,
};
use crate::text::{
    append_chars, dec_chars, escape_attr, escape_text, exec_dec_chars_u64, exec_escape_attr,
    exec_escape_text,
};
use crate::highlight::{
    alias_for_language, alias_of, named_highlight_of, token_highlight_of, Highlighter,
};

verus! {

/// The HTML of an optional title attribute on a link or image.
pub open spec fn title_attr_html(t: Option<Seq<char>>) -> Seq<char> {
    match t {
        Some(title) => " title=\""@ + escape_attr(title) + "\""@,
        None => Seq::empty(),
    }
}

/// The HTML of one inline element.
pub open spec fn html_of_inline(e: InlineV) -> Seq<char>
    decreases e,
{
    match e {
        InlineV::Text(s) => escape_text(s),
        InlineV::Link { text, url, title } => "<a href=\""@ + escape_attr(url) + "\""@
            + title_attr_html(title) + ">"@ + escape_text(text) + "</a>"@,
        InlineV::Image { alt, url, title } => "<img src=\""@ + escape_attr(url) + "\" alt=\""@
            + escape_attr(alt) + "\""@ + title_attr_html(title) + "/>"@,
        InlineV::Emphasis { level, content } => if level == 1 {
            "<em>"@ + html_of_inlines(content) + "</em>"@
        } else if level == 2 {
            "<strong>"@ + html_of_inlines(content) + "</strong>"@
        } else {
            html_of_inlines(content)
        },
        InlineV::Code(s) => "<code>"@ + escape_text(s) + "</code>"@,
        InlineV::SoftBreak => seq![' '],
        InlineV::HardBreak => "<br />"@,
        InlineV::Strikethrough { content } => "<del>"@ + html_of_inlines(content) + "</del>"@,
    }
}

/// The HTML of a sequence of inline elements, in order.
pub open spec fn html_of_inlines(s: Seq<InlineV>) -> Seq<char>
    decreases s,
{
    if s.len() == 0 {
        Seq::empty()
    } else {
        html_of_inline(s[0]) + html_of_inlines(s.drop_first())
    }
}

/// The disabled checkbox that prefixes a task-list item.
pub open spec fn checkbox_html(checked: bool) -> Seq<char> {
    if checked {
        "<input type=\"checkbox\" checked disabled/> "@
    } else {
        "<input type=\"checkbox\" disabled/> "@
    }
}

/// The HTML of one list item: a checked item renders its checkbox and no
/// nested list, an unchecked one renders its nested sub-items if any.
pub open spec fn html_of_item(it: ListItemV) -> Seq<char>
    decreases it,
{
    match it.checked {
        Some(c) => "<li>"@ + checkbox_html(c) + html_of_inlines(it.content) + "</li>\n"@,
        None => "<li>"@ + html_of_inlines(it.content) + (if it.sub_items.len() > 0 {
            "\n<ul>\n"@ + html_of_items(it.sub_items) + "</ul>\n"@
        } else {
            Seq::empty()
        }) + "</li>\n"@,
    }
}

/// The HTML of a sequence of list items, in order.
pub open spec fn html_of_items(s: Seq<ListItemV>) -> Seq<char>
    decreases s,
{
    if s.len() == 0 {
        Seq::empty()
    } else {
        html_of_item(s[0]) + html_of_items(s.drop_first())
    }
}

/// The unhighlighted form of a code block: its text escaped inside
/// `<pre><code>` tags.
pub open spec fn fallback_code_html(code: Seq<char>) -> Seq<char> {
    "<pre><code>"@ + escape_text(code) + "</code></pre>\n"@
}

/// The HTML of a code block: without a language tag the escaped fallback;
/// with one, the highlighted snippet when token lookup succeeds, retried
/// under the alias policy, and the escaped fallback when all of that fails.
pub open spec fn code_html_of(
    theme: Seq<char>,
    language: Option<Seq<char>>,
    code: Seq<char>,
) -> Seq<char> {
    match language {
        None => fallback_code_html(code),
        Some(lang) => match token_highlight_of(theme, lang, code) {
            Some(h) => h,
            None => match alias_of(lang) {
                Some(name) => match named_highlight_of(theme, name, code) {
                    Some(h) => h,
                    None => fallback_code_html(code),
                },
                None => fallback_code_html(code),
            },
        },
    }
}

/// The header cells of a table, each wrapped in `<th>`.
pub open spec fn th_cells_html(s: Seq<Seq<InlineV>>) -> Seq<char>
    decreases s,
{
    if s.len() == 0 {
        Seq::empty()
    } else {
        "<th>"@ + html_of_inlines(s[0]) + "</th>\n"@ + th_cells_html(s.drop_first())
    }
}

/// The cells of one body row, each wrapped in `<td>`.
pub open spec fn td_cells_html(s: Seq<Seq<InlineV>>) -> Seq<char>
    decreases s,
{
    if s.len() == 0 {
        Seq::empty()
    } else {
        "<td>"@ + html_of_inlines(s[0]) + "</td>\n"@ + td_cells_html(s.drop_first())
    }
}

/// The body rows of a table, each wrapped in `<tr>`.
pub open spec fn rows_html(s: Seq<Seq<Seq<InlineV>>>) -> Seq<char>
    decreases s,
{
    if s.len() == 0 {
        Seq::empty()
    } else {
        "<tr>\n"@ + td_cells_html(s[0]) + "</tr>\n"@ + rows_html(s.drop_first())
    }
}

/// The HTML of a table: a `<thead>` only when there are header cells, a
/// `<tbody>` only when there are rows; ragged rows pass through as they
/// are.
pub open spec fn table_html_of(headers: Seq<Seq<InlineV>>, rows: Seq<Seq<Seq<InlineV>>>) -> Seq<
    char,
> {
    "<table>\n"@ + (if headers.len() > 0 {
        "<thead>\n<tr>\n"@ + th_cells_html(headers) + "</tr>\n</thead>\n"@
    } else {
        Seq::empty()
    }) + (if rows.len() > 0 {
        "<tbody>\n"@ + rows_html(rows) + "</tbody>\n"@
    } else {
        Seq::empty()
    }) + "</table>\n"@
}

/// The HTML of one block element under the given highlighting theme.
pub open spec fn html_of_element(theme: Seq<char>, e: ElementV) -> Seq<char>
    decreases e,
{
    match e {
        ElementV::Heading { level, content } => "<h"@ + dec_chars(level as nat) + ">"@
            + html_of_inlines(content) + "</h"@ + dec_chars(level as nat) + ">\n"@,
        ElementV::Paragraph { content } => "<p>"@ + html_of_inlines(content) + "</p>\n"@,
        ElementV::CodeBlock { language, content } => code_html_of(theme, language, content),
        ElementV::List { items, ordered } => (if ordered {
            "<ol>\n"@
        } else {
            "<ul>\n"@
        }) + html_of_items(items) + (if ordered {
            "</ol>\n"@
        } else {
            "</ul>\n"@
        }),
        ElementV::BlockQuote { content } => "<blockquote>\n"@ + html_of_elements(theme, content)
            + "</blockquote>\n"@,
        ElementV::Table { headers, rows } => table_html_of(headers, rows),
        ElementV::HorizontalRule => "<hr />\n"@,
        ElementV::Html { content } => content + "\n"@,
    }
}

/// The HTML of a sequence of block elements: the concatenation of each
/// element's rendering, in document order.
pub open spec fn html_of_elements(theme: Seq<char>, s: Seq<ElementV>) -> Seq<char>
    decreases s,
{
    if s.len() == 0 {
        Seq::empty()
    } else {
        html_of_element(theme, s[0]) + html_of_elements(theme, s.drop_first())
    }
}

fn push_title_attr(out: &mut String, title: &Option<String>)
    ensures
        final(out)@ == old(out)@ + title_attr_html(crate::markdown::opt_str_view(*title)),
{
    match title {
        Some(t) => {
            out.append(" title=\"");
            let esc = exec_escape_attr(t.as_str());
            out.append(esc.as_str());
            out.append("\"");
        },
        None => {},
    }
    proof {
        assert(out@ =~= old(out)@ + title_attr_html(crate::markdown::opt_str_view(*title)));
    }
}

fn push_inline_html(out: &mut String, e: &InlineElement)
    ensures
        final(out)@ == old(out)@ + html_of_inline(inline_view(*e)),
    decreases e,
{
    match e {
        InlineElement::Text(s) => {
            let esc = exec_escape_text(s.as_str());
            out.append(esc.as_str());
        },
        InlineElement::Link { text, url, title } => {
            out.append("<a href=\"");
            let u = exec_escape_attr(url.as_str());
            out.append(u.as_str());
            out.append("\"");
            push_title_attr(out, title);
            out.append(">");
            let t = exec_escape_text(text.as_str());
            out.append(t.as_str());
            out.append("</a>");
        },
        InlineElement::Image { alt, url, title } => {
            out.append("<img src=\"");
            let u = exec_escape_attr(url.as_str());
            out.append(u.as_str());
            out.append("\" alt=\"");
            let a = exec_escape_attr(alt.as_str());
            out.append(a.as_str());
            out.append("\"");
            push_title_attr(out, title);
            out.append("/>");
        },
        InlineElement::Emphasis { level, content } => {
            if *level == 1 {
                out.append("<em>");
                push_inlines_html(out, content);
                out.append("</em>");
            } else if *level == 2 {
                out.append("<strong>");
                push_inlines_html(out, content);
                out.append("</strong>");
            } else {
                push_inlines_html(out, content);
            }
        },
        InlineElement::Code(s) => {
            out.append("<code>");
            let esc = exec_escape_text(s.as_str());
            out.append(esc.as_str());
            out.append("</code>");
        },
        InlineElement::SoftBreak => {
            out.append(" ");
            proof {
                reveal_strlit(" ");
                assert(" "@ =~= seq![' ']);
            }
        },
        InlineElement::HardBreak => {
            out.append("<br />");
        },
        InlineElement::Strikethrough { content } => {
            out.append("<del>");
            push_inlines_html(out, content);
            out.append("</del>");
        },
    }
    proof {
        assert(out@ =~= old(out)@ + html_of_inline(inline_view(*e)));
    }
}

fn push_inlines_html(out: &mut String, es: &Vec<InlineElement>)
    ensures
        final(out)@ == old(out)@ + html_of_inlines(inline_seq_view(es@)),
    decreases es,
{
    let ghost vs = inline_seq_view(es@);
    proof {
        lemma_inline_seq_view(es@);
        assert(vs.skip(0) =~= vs);
    }
    let mut i: usize = 0;
    while i < es.len()
        invariant
            i <= es@.len(),
            vs == inline_seq_view(es@),
            vs.len() == es@.len(),
            out@ + html_of_inlines(vs.skip(i as int)) == old(out)@ + html_of_inlines(vs),
        decreases es@.len() - i,
    {
        let ghost i0 = i as int;
        let ghost out_pre = out@;
        proof {
            lemma_inline_seq_view(es@);
            assert(vs.skip(i0)[0] == vs[i0]);
            assert(vs.skip(i0).drop_first() =~= vs.skip(i0 + 1));
            assert(vs[i0] == inline_view(es@[i0]));
        }
        push_inline_html(out, &es[i]);
        i = i + 1;
        proof {
            assert(out@ + html_of_inlines(vs.skip(i0 + 1)) =~= out_pre + html_of_inlines(
                vs.skip(i0),
            ));
        }
    }
    proof {
        assert(vs.skip(vs.len() as int) =~= Seq::<InlineV>::empty());
        assert(out@ =~= old(out)@ + html_of_inlines(vs));
    }
}

fn push_item_html(out: &mut String, it: &ListItem)
    ensures
        final(out)@ == old(out)@ + html_of_item(item_view(*it)),
    decreases it,
{
    match &it.checked {
        Some(c) => {
            out.append("<li>");
            if *c {
                out.append("<input type=\"checkbox\" checked disabled/> ");
            } else {
                out.append("<input type=\"checkbox\" disabled/> ");
            }
            push_inlines_html(out, &it.content);
            out.append("</li>\n");
        },
        None => {
            out.append("<li>");
            push_inlines_html(out, &it.content);
            proof {
                lemma_item_seq_view(it.sub_items@);
            }
            if it.sub_items.len() > 0 {
                out.append("\n<ul>\n");
                push_items_html(out, &it.sub_items);
                out.append("</ul>\n");
            }
            out.append("</li>\n");
        },
    }
    proof {
        assert(out@ =~= old(out)@ + html_of_item(item_view(*it)));
    }
}

fn push_items_html(out: &mut String, items: &Vec<ListItem>)
    ensures
        final(out)@ == old(out)@ + html_of_items(item_seq_view(items@)),
    decreases items,
{
    let ghost vs = item_seq_view(items@);
    proof {
        lemma_item_seq_view(items@);
        assert(vs.skip(0) =~= vs);
    }
    let mut i: usize = 0;
    while i < items.len()
        invariant
            i <= items@.len(),
            vs == item_seq_view(items@),
            vs.len() == items@.len(),
            out@ + html_of_items(vs.skip(i as int)) == old(out)@ + html_of_items(vs),
        decreases items@.len() - i,
    {
        let ghost i0 = i as int;
        let ghost out_pre = out@;
        proof {
            lemma_item_seq_view(items@);
            assert(vs.skip(i0)[0] == vs[i0]);
            assert(vs.skip(i0).drop_first() =~= vs.skip(i0 + 1));
            assert(vs[i0] == item_view(items@[i0]));
        }
        push_item_html(out, &items[i]);
        i = i + 1;
        proof {
            assert(out@ + html_of_items(vs.skip(i0 + 1)) =~= out_pre + html_of_items(
                vs.skip(i0),
            ));
        }
    }
    proof {
        assert(vs.skip(vs.len() as int) =~= Seq::<ListItemV>::empty());
        assert(out@ =~= old(out)@ + html_of_items(vs));
    }
}

fn push_code_fallback(out: &mut String, code: &String)
    ensures
        final(out)@ == old(out)@ + fallback_code_html(code@),
{
    out.append("<pre><code>");
    let esc = exec_escape_text(code.as_str());
    out.append(esc.as_str());
    out.append("</code></pre>\n");
    proof {
        assert(out@ =~= old(out)@ + fallback_code_html(code@));
    }
}

fn push_th_cells(out: &mut String, cells: &Vec<Vec<InlineElement>>)
    ensures
        final(out)@ == old(out)@ + th_cells_html(cell_seq_view(cells@)),
{
    let ghost vs = cell_seq_view(cells@);
    proof {
        lemma_cell_seq_view(cells@);
        assert(vs.skip(0) =~= vs);
    }
    let mut i: usize = 0;
    while i < cells.len()
        invariant
            i <= cells@.len(),
            vs == cell_seq_view(cells@),
            vs.len() == cells@.len(),
            out@ + th_cells_html(vs.skip(i as int)) == old(out)@ + th_cells_html(vs),
        decreases cells@.len() - i,
    {
        let ghost i0 = i as int;
        let ghost out_pre = out@;
        proof {
            lemma_cell_seq_view(cells@);
            assert(vs.skip(i0)[0] == vs[i0]);
            assert(vs.skip(i0).drop_first() =~= vs.skip(i0 + 1));
            assert(vs[i0] == inline_seq_view(cells@[i0]@));
        }
        out.append("<th>");
        push_inlines_html(out, &cells[i]);
        out.append("</th>\n");
        i = i + 1;
        proof {
            assert(out@ + th_cells_html(vs.skip(i0 + 1)) =~= out_pre + th_cells_html(
                vs.skip(i0),
            ));
        }
    }
    proof {
        assert(vs.skip(vs.len() as int) =~= Seq::<Seq<InlineV>>::empty());
        assert(out@ =~= old(out)@ + th_cells_html(vs));
    }
}

fn push_td_cells(out: &mut String, cells: &Vec<Vec<InlineElement>>)
    ensures
        final(out)@ == old(out)@ + td_cells_html(cell_seq_view(cells@)),
{
    let ghost vs = cell_seq_view(cells@);
    proof {
        lemma_cell_seq_view(cells@);
        assert(vs.skip(0) =~= vs);
    }
    let mut i: usize = 0;
    while i < cells.len()
        invariant
            i <= cells@.len(),
            vs == cell_seq_view(cells@),
            vs.len() == cells@.len(),
            out@ + td_cells_html(vs.skip(i as int)) == old(out)@ + td_cells_html(vs),
        decreases cells@.len() - i,
    {
        let ghost i0 = i as int;
        let ghost out_pre = out@;
        proof {
            lemma_cell_seq_view(cells@);
            assert(vs.skip(i0)[0] == vs[i0]);
            assert(vs.skip(i0).drop_first() =~= vs.skip(i0 + 1));
            assert(vs[i0] == inline_seq_view(cells@[i0]@));
        }
        out.append("<td>");
        push_inlines_html(out, &cells[i]);
        out.append("</td>\n");
        i = i + 1;
        proof {
            assert(out@ + td_cells_html(vs.skip(i0 + 1)) =~= out_pre + td_cells_html(
                vs.skip(i0),
            ));
        }
    }
    proof {
        assert(vs.skip(vs.len() as int) =~= Seq::<Seq<InlineV>>::empty());
        assert(out@ =~= old(out)@ + td_cells_html(vs));
    }
}

fn push_rows(out: &mut String, rows: &Vec<Vec<Vec<InlineElement>>>)
    ensures
        final(out)@ == old(out)@ + rows_html(row_seq_view(rows@)),
{
    let ghost vs = row_seq_view(rows@);
    proof {
        lemma_row_seq_view(rows@);
        assert(vs.skip(0) =~= vs);
    }
    let mut i: usize = 0;
    while i < rows.len()
        invariant
            i <= rows@.len(),
            vs == row_seq_view(rows@),
            vs.len() == rows@.len(),
            out@ + rows_html(vs.skip(i as int)) == old(out)@ + rows_html(vs),
        decreases rows@.len() - i,
    {
        let ghost i0 = i as int;
        let ghost out_pre = out@;
        proof {
            lemma_row_seq_view(rows@);
            assert(vs.skip(i0)[0] == vs[i0]);
            assert(vs.skip(i0).drop_first() =~= vs.skip(i0 + 1));
            assert(vs[i0] == cell_seq_view(rows@[i0]@));
        }
        out.append("<tr>\n");
        push_td_cells(out, &rows[i]);
        out.append("</tr>\n");
        i = i + 1;
        proof {
            assert(out@ + rows_html(vs.skip(i0 + 1)) =~= out_pre + rows_html(vs.skip(i0)));
        }
    }
    proof {
        assert(vs.skip(vs.len() as int) =~= Seq::<Seq<Seq<InlineV>>>::empty());
        assert(out@ =~= old(out)@ + rows_html(vs));
    }
}

fn push_table_html(
    out: &mut String,
    headers: &Vec<Vec<InlineElement>>,
    rows: &Vec<Vec<Vec<InlineElement>>>,
)
    ensures
        final(out)@ == old(out)@ + table_html_of(cell_seq_view(headers@), row_seq_view(rows@)),
{
    proof {
        lemma_cell_seq_view(headers@);
        lemma_row_seq_view(rows@);
    }
    out.append("<table>\n");
    if headers.len() > 0 {
        out.append("<thead>\n<tr>\n");
        push_th_cells(out, headers);
        out.append("</tr>\n</thead>\n");
    }
    if rows.len() > 0 {
        out.append("<tbody>\n");
        push_rows(out, rows);
        out.append("</tbody>\n");
    }
    out.append("</table>\n");
    proof {
        assert(out@ =~= old(out)@ + table_html_of(cell_seq_view(headers@), row_seq_view(rows@)));
    }
}

fn push_element_html(hl: &Highlighter, out: &mut String, e: &PageElement)
    ensures
        final(out)@ == old(out)@ + html_of_element(hl.theme_id(), element_view(*e)),
    decreases e,
{
    match e {
        PageElement::Heading { level, content } => {
            let digits = exec_dec_chars_u64(*level as u64);
            out.append("<h");
            append_chars(out, &digits);
            out.append(">");
            push_inlines_html(out, content);
            out.append("</h");
            append_chars(out, &digits);
            out.append(">\n");
        },
        PageElement::Paragraph { content } => {
            out.append("<p>");
            push_inlines_html(out, content);
            out.append("</p>\n");
        },
        PageElement::CodeBlock { language, content } => {
            match language {
                None => push_code_fallback(out, content),
                Some(lang) => {
                    match hl.highlight_by_token(lang.as_str(), content.as_str()) {
                        Some(h) => out.append(h.as_str()),
                        None => {
                            match alias_for_language(lang.as_str()) {
                                Some(name) => {
                                    match hl.highlight_by_name(name, content.as_str()) {
                                        Some(h) => out.append(h.as_str()),
                                        None => push_code_fallback(out, content),
                                    }
                                },
                                None => push_code_fallback(out, content),
                            }
                        },
                    }
                },
            }
        },
        PageElement::List { items, ordered } => {
            if *ordered {
                out.append("<ol>\n");
            } else {
                out.append("<ul>\n");
            }
            push_items_html(out, items);
            if *ordered {
                out.append("</ol>\n");
            } else {
                out.append("</ul>\n");
            }
        },
        PageElement::BlockQuote { content } => {
            out.append("<blockquote>\n");
            push_elements_html(hl, out, content);
            out.append("</blockquote>\n");
        },
        PageElement::Table { headers, rows } => {
            push_table_html(out, headers, rows);
        },
        PageElement::HorizontalRule => {
            out.append("<hr />\n");
        },
        PageElement::Html { content } => {
            out.append(content.as_str());
            out.append("\n");
        },
    }
    proof {
        assert(out@ =~= old(out)@ + html_of_element(hl.theme_id(), element_view(*e)));
    }
}

fn push_elements_html(hl: &Highlighter, out: &mut String, es: &Vec<PageElement>)
    ensures
        final(out)@ == old(out)@ + html_of_elements(hl.theme_id(), element_seq_view(es@)),
    decreases es,
{
    let ghost vs = element_seq_view(es@);
    proof {
        lemma_element_seq_view(es@);
        assert(vs.skip(0) =~= vs);
    }
    let mut i: usize = 0;
    while i < es.len()
        invariant
            i <= es@.len(),
            vs == element_seq_view(es@),
            vs.len() == es@.len(),
            out@ + html_of_elements(hl.theme_id(), vs.skip(i as int)) == old(out)@
                + html_of_elements(hl.theme_id(), vs),
        decreases es@.len() - i,
    {
        let ghost i0 = i as int;
        let ghost out_pre = out@;
        proof {
            lemma_element_seq_view(es@);
            assert(vs.skip(i0)[0] == vs[i0]);
            assert(vs.skip(i0).drop_first() =~= vs.skip(i0 + 1));
            assert(vs[i0] == element_view(es@[i0]));
        }
        push_element_html(hl, out, &es[i]);
        i = i + 1;
        proof {
            assert(out@ + html_of_elements(hl.theme_id(), vs.skip(i0 + 1)) =~= out_pre
                + html_of_elements(hl.theme_id(), vs.skip(i0)));
        }
    }
    proof {
        assert(vs.skip(vs.len() as int) =~= Seq::<ElementV>::empty());
        assert(out@ =~= old(out)@ + html_of_elements(hl.theme_id(), vs));
    }
}

/// Renders a sequence of inline elements to HTML.
pub fn render_inline_elements(elements: &Vec<InlineElement>) -> (r: String)
    ensures
        r@ == html_of_inlines(inline_seq_view(elements@)),
{
    let mut out = String::new();
    push_inlines_html(&mut out, elements);
    out
}

/// Renders one list item to HTML.
pub fn render_list_item(item: &ListItem) -> (r: String)
    ensures
        r@ == html_of_item(item_view(*item)),
{
    let mut out = String::new();
    push_item_html(&mut out, item);
    out
}

/// Renders a table to HTML.
pub fn render_table(
    headers: &Vec<Vec<InlineElement>>,
    rows: &Vec<Vec<Vec<InlineElement>>>,
) -> (r: String)
    ensures
        r@ == table_html_of(cell_seq_view(headers@), row_seq_view(rows@)),
{
    let mut out = String::new();
    push_table_html(&mut out, headers, rows);
    out
}

/// Renders one block element to HTML under the given highlighter.
pub fn render_element(hl: &Highlighter, element: &PageElement) -> (r: String)
    ensures
        r@ == html_of_element(hl.theme_id(), element_view(*element)),
{
    let mut out = String::new();
    push_element_html(hl, &mut out, element);
    out
}

/// Renders a whole document to a single HTML string: the concatenation of
/// each element's rendering, in document order.
pub fn render_elements_to_html(hl: &Highlighter, elements: &Vec<PageElement>) -> (r: String)
    ensures
        r@ == html_of_elements(hl.theme_id(), element_seq_view(elements@)),
{
    let mut out = String::new();
    push_elements_html(hl, &mut out, elements);
    out
}

/// For plain prose — a single text fragment with no markup — the rendered
/// HTML is exactly the escaped input, and the flattened text is the input
/// itself, verbatim.
pub proof fn lemma_plain_text_roundtrip(s: Seq<char>)
    ensures
        html_of_inlines(seq![InlineV::Text(s)]) == escape_text(s),
        text_of_inlines(seq![InlineV::Text(s)]) == s,
{
    let one = seq![InlineV::Text(s)];
    assert(one.drop_first() =~= Seq::<InlineV>::empty());
    assert(html_of_inlines(one.drop_first()) == Seq::<char>::empty());
    assert(text_of_inlines(one.drop_first()) == Seq::<char>::empty());
    assert(one[0] == InlineV::Text(s));
    assert(html_of_inline(one[0]) == escape_text(s));
    assert(text_of_inline(one[0]) == s);
    assert(html_of_inlines(one) =~= escape_text(s));
    assert(text_of_inlines(one) =~= s);
}

/// A code block without a language tag always renders as the escaped
/// `<pre><code>` form, whatever its content.
pub proof fn lemma_untagged_code_block(theme: Seq<char>, code: Seq<char>)
    ensures
        html_of_element(theme, ElementV::CodeBlock { language: None, content: code })
            == "<pre><code>"@ + escape_text(code) + "</code></pre>\n"@,
{
}

/// A code block whose language tag neither resolves to a bundled grammar
/// nor, through the alias policy, to a highlightable one, falls back to
/// the escaped `<pre><code>` form instead of failing.
pub proof fn lemma_unknown_language_fallback(theme: Seq<char>, lang: Seq<char>, code: Seq<char>)
    requires
        token_highlight_of(theme, lang, code) is None,
        (match alias_of(lang) {
            Some(name) => named_highlight_of(theme, name, code) is None,
            None => true,
        }),
    ensures
        html_of_element(theme, ElementV::CodeBlock { language: Some(lang), content: code })
            == "<pre><code>"@ + escape_text(code) + "</code></pre>\n"@,
{
}

/// A blockquote wraps the renderings of its children, in their original
/// order, inside one `<blockquote>` pair.
pub proof fn lemma_blockquote_preserves_order(theme: Seq<char>, first: ElementV, second: ElementV)
    ensures
        html_of_element(theme, ElementV::BlockQuote { content: seq![first, second] })
            == "<blockquote>\n"@ + html_of_element(theme, first) + html_of_element(theme, second)
            + "</blockquote>\n"@,
{
    let two = seq![first, second];
    assert(two.drop_first() =~= seq![second]);
    assert(seq![second].drop_first() =~= Seq::<ElementV>::empty());
    assert(html_of_elements(theme, seq![second].drop_first()) == Seq::<char>::empty());
    assert(html_of_elements(theme, seq![second]) =~= html_of_element(theme, second));
    assert(html_of_elements(theme, two) =~= html_of_element(theme, first) + html_of_element(
        theme,
        second,
    ));
    assert(html_of_element(theme, ElementV::BlockQuote { content: two }) =~= "<blockquote>\n"@
        + html_of_element(theme, first) + html_of_element(theme, second) + "</blockquote>\n"@);
}

/// A table with no header cells renders no `<thead>` block at all: its
/// HTML is exactly the `<table>` wrapper around the `<tbody>` part.
pub proof fn lemma_table_without_headers(theme: Seq<char>, rows: Seq<Seq<Seq<InlineV>>>)
    ensures
        html_of_element(theme, ElementV::Table { headers: Seq::empty(), rows }) == "<table>\n"@
            + (if rows.len() > 0 {
            "<tbody>\n"@ + rows_html(rows) + "</tbody>\n"@
        } else {
            Seq::empty()
        }) + "</table>\n"@,
{
    assert(html_of_element(theme, ElementV::Table { headers: Seq::empty(), rows }) =~= "<table>\n"@
        + (if rows.len() > 0 {
        "<tbody>\n"@ + rows_html(rows) + "</tbody>\n"@
    } else {
        Seq::empty()
    }) + "</table>\n"@);
}

} // verus!
