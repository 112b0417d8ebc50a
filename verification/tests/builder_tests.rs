use zap_core::{get_page_structured, get_page_title, Highlighter, MdEvent, StartKind};
use zap_core::render_elements_to_html;

fn text(s: &str) -> MdEvent {
    MdEvent::Text(s.to_string())
}

fn hl() -> Highlighter {
    Highlighter::new("base16-ocean.dark").unwrap()
}

#[test]
fn paragraph_from_events() {
    let events = vec![MdEvent::Start(StartKind::Paragraph), text("hello"), MdEvent::End];
    let elements = get_page_structured(&events);
    let html = render_elements_to_html(&hl(), &elements);
    assert_eq!(html, "<p>hello</p>\n");
}

#[test]
fn empty_paragraph_is_dropped() {
    let events = vec![MdEvent::Start(StartKind::Paragraph), MdEvent::End];
    let elements = get_page_structured(&events);
    assert_eq!(elements.len(), 0);
}

#[test]
fn orphan_end_is_dropped_and_rest_unaffected() {
    let events = vec![
        MdEvent::Start(StartKind::Paragraph),
        text("one"),
        MdEvent::End,
        MdEvent::End,
        MdEvent::Start(StartKind::Paragraph),
        text("two"),
        MdEvent::End,
    ];
    let elements = get_page_structured(&events);
    assert_eq!(elements.len(), 2);
    let html = render_elements_to_html(&hl(), &elements);
    assert_eq!(html, "<p>one</p>\n<p>two</p>\n");
}

#[test]
fn heading_with_strong_emphasis() {
    let events = vec![
        MdEvent::Start(StartKind::Heading(2)),
        text("a"),
        MdEvent::Start(StartKind::Strong),
        text("b"),
        MdEvent::End,
        MdEvent::End,
    ];
    let elements = get_page_structured(&events);
    let html = render_elements_to_html(&hl(), &elements);
    assert_eq!(html, "<h2>a<strong>b</strong></h2>\n");
}

#[test]
fn ordered_list_from_events() {
    let events = vec![
        MdEvent::Start(StartKind::List(Some(1))),
        MdEvent::Start(StartKind::Item),
        text("a"),
        MdEvent::End,
        MdEvent::Start(StartKind::Item),
        text("b"),
        MdEvent::End,
        MdEvent::End,
    ];
    let elements = get_page_structured(&events);
    let html = render_elements_to_html(&hl(), &elements);
    assert_eq!(html, "<ol>\n<li>a</li>\n<li>b</li>\n</ol>\n");
}

#[test]
fn bullet_list_from_events() {
    let events = vec![
        MdEvent::Start(StartKind::List(None)),
        MdEvent::Start(StartKind::Item),
        text("x"),
        MdEvent::End,
        MdEvent::End,
    ];
    let elements = get_page_structured(&events);
    let html = render_elements_to_html(&hl(), &elements);
    assert_eq!(html, "<ul>\n<li>x</li>\n</ul>\n");
}

#[test]
fn item_outside_list_is_dropped() {
    let events = vec![
        MdEvent::Start(StartKind::Paragraph),
        text("keep"),
        MdEvent::Start(StartKind::Item),
        text("stray"),
        MdEvent::End,
        MdEvent::End,
    ];
    let elements = get_page_structured(&events);
    let html = render_elements_to_html(&hl(), &elements);
    assert_eq!(html, "<p>keep</p>\n");
}

#[test]
fn blockquote_nests_blocks_in_order() {
    let events = vec![
        MdEvent::Start(StartKind::BlockQuote),
        MdEvent::Start(StartKind::Heading(1)),
        text("t"),
        MdEvent::End,
        MdEvent::Start(StartKind::Paragraph),
        text("p"),
        MdEvent::End,
        MdEvent::End,
    ];
    let elements = get_page_structured(&events);
    let html = render_elements_to_html(&hl(), &elements);
    assert_eq!(html, "<blockquote>\n<h1>t</h1>\n<p>p</p>\n</blockquote>\n");
}

#[test]
fn table_from_events() {
    let events = vec![
        MdEvent::Start(StartKind::Table),
        MdEvent::Start(StartKind::TableHead),
        MdEvent::Start(StartKind::TableCell),
        text("A"),
        MdEvent::End,
        MdEvent::Start(StartKind::TableCell),
        text("B"),
        MdEvent::End,
        MdEvent::End,
        MdEvent::Start(StartKind::TableRow),
        MdEvent::Start(StartKind::TableCell),
        text("1"),
        MdEvent::End,
        MdEvent::Start(StartKind::TableCell),
        text("2"),
        MdEvent::End,
        MdEvent::End,
        MdEvent::End,
    ];
    let elements = get_page_structured(&events);
    let html = render_elements_to_html(&hl(), &elements);
    assert_eq!(
        html,
        "<table>\n<thead>\n<tr>\n<th>A</th>\n<th>B</th>\n</tr>\n</thead>\n<tbody>\n<tr>\n<td>1</td>\n<td>2</td>\n</tr>\n</tbody>\n</table>\n"
    );
}

#[test]
fn fenced_code_concatenates_text_fragments() {
    let events = vec![
        MdEvent::Start(StartKind::FencedCode(String::new())),
        text("a<b"),
        text(" & c"),
        MdEvent::End,
    ];
    let elements = get_page_structured(&events);
    let html = render_elements_to_html(&hl(), &elements);
    assert_eq!(html, "<pre><code>a&lt;b &amp; c</code></pre>\n");
}

#[test]
fn link_flattens_inline_text() {
    let events = vec![
        MdEvent::Start(StartKind::Paragraph),
        MdEvent::Start(StartKind::Link { url: "https://example.com".to_string(), title: String::new() }),
        text("click "),
        MdEvent::Start(StartKind::Emphasis),
        text("here"),
        MdEvent::End,
        MdEvent::End,
        MdEvent::End,
    ];
    let elements = get_page_structured(&events);
    let html = render_elements_to_html(&hl(), &elements);
    assert_eq!(html, "<p><a href=\"https://example.com\">click here</a></p>\n");
}

#[test]
fn rule_and_html_pass_to_top_level() {
    let events = vec![
        MdEvent::Rule,
        MdEvent::Html("<aside>raw & untouched</aside>".to_string()),
    ];
    let elements = get_page_structured(&events);
    let html = render_elements_to_html(&hl(), &elements);
    assert_eq!(html, "<hr />\n<aside>raw & untouched</aside>\n");
}

#[test]
fn breaks_inside_paragraph() {
    let events = vec![
        MdEvent::Start(StartKind::Paragraph),
        text("a"),
        MdEvent::SoftBreak,
        text("b"),
        MdEvent::HardBreak,
        text("c"),
        MdEvent::End,
    ];
    let elements = get_page_structured(&events);
    let html = render_elements_to_html(&hl(), &elements);
    assert_eq!(html, "<p>a b<br />c</p>\n");
}

#[test]
fn page_title_from_first_heading() {
    let events = vec![
        MdEvent::Start(StartKind::Paragraph),
        text("intro"),
        MdEvent::End,
        MdEvent::Start(StartKind::Heading(1)),
        text("My "),
        MdEvent::Start(StartKind::Emphasis),
        text("Title"),
        MdEvent::End,
        MdEvent::End,
    ];
    let elements = get_page_structured(&events);
    assert_eq!(get_page_title(&elements), "My Title");
}

#[test]
fn page_title_fallback_without_heading() {
    let events = vec![MdEvent::Start(StartKind::Paragraph), text("only prose"), MdEvent::End];
    let elements = get_page_structured(&events);
    assert_eq!(get_page_title(&elements), "A sad page");
}

#[test]
fn unclosed_frame_is_discarded_at_stream_end() {
    let events = vec![
        MdEvent::Start(StartKind::Paragraph),
        text("done"),
        MdEvent::End,
        MdEvent::Start(StartKind::Paragraph),
        text("never closed"),
    ];
    let elements = get_page_structured(&events);
    let html = render_elements_to_html(&hl(), &elements);
    assert_eq!(html, "<p>done</p>\n");
}
