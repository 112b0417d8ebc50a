use zap_core::{
    render_element, render_elements_to_html, render_inline_elements, Highlighter, InlineElement,
    ListItem, PageElement,
};
use zap_core::render_inline_elements_text;

fn hl() -> Highlighter {
    Highlighter::new("base16-ocean.dark").unwrap()
}

fn text(s: &str) -> InlineElement {
    InlineElement::Text(s.to_string())
}

#[test]
fn plain_text_renders_escaped_and_flattens_verbatim() {
    let inlines = vec![text("plain prose, nothing special")];
    assert_eq!(render_inline_elements(&inlines), "plain prose, nothing special");
    assert_eq!(render_inline_elements_text(&inlines), "plain prose, nothing special");
    let markup = vec![text("a < b & c > d")];
    assert_eq!(render_inline_elements(&markup), "a &lt; b &amp; c &gt; d");
    assert_eq!(render_inline_elements_text(&markup), "a < b & c > d");
}

#[test]
fn untagged_code_block_always_escaped() {
    let el = PageElement::CodeBlock {
        language: None,
        content: "if a < b && b > c { \"<&>\" }".to_string(),
    };
    assert_eq!(
        render_element(&hl(), &el),
        "<pre><code>if a &lt; b &amp;&amp; b &gt; c { \"&lt;&amp;&gt;\" }</code></pre>\n"
    );
}

#[test]
fn ordered_list_of_three_items() {
    let item = |s: &str| ListItem {
        content: vec![text(s)],
        sub_items: Vec::new(),
        checked: None,
    };
    let el = PageElement::List { items: vec![item("a"), item("b"), item("c")], ordered: true };
    let html = render_element(&hl(), &el);
    assert_eq!(html.replace('\n', ""), "<ol><li>a</li><li>b</li><li>c</li></ol>");
}

#[test]
fn blockquote_preserves_inner_order() {
    let el = PageElement::BlockQuote {
        content: vec![
            PageElement::Heading { level: 1, content: vec![text("head")] },
            PageElement::Paragraph { content: vec![text("body")] },
        ],
    };
    let html = render_element(&hl(), &el);
    assert_eq!(
        html.replace('\n', ""),
        "<blockquote><h1>head</h1><p>body</p></blockquote>"
    );
}

#[test]
fn table_headers_and_rows() {
    let el = PageElement::Table {
        headers: vec![vec![text("A")], vec![text("B")]],
        rows: vec![vec![vec![text("1")], vec![text("2")]]],
    };
    let html = render_element(&hl(), &el);
    assert_eq!(
        html,
        "<table>\n<thead>\n<tr>\n<th>A</th>\n<th>B</th>\n</tr>\n</thead>\n<tbody>\n<tr>\n<td>1</td>\n<td>2</td>\n</tr>\n</tbody>\n</table>\n"
    );
}

#[test]
fn table_without_headers_has_no_thead() {
    let el = PageElement::Table {
        headers: Vec::new(),
        rows: vec![vec![vec![text("1")]]],
    };
    let html = render_element(&hl(), &el);
    assert!(!html.contains("<thead>"));
    assert_eq!(html, "<table>\n<tbody>\n<tr>\n<td>1</td>\n</tr>\n</tbody>\n</table>\n");
}

#[test]
fn unknown_language_falls_back_to_escaped_form() {
    let el = PageElement::CodeBlock {
        language: Some("no-such-language-zz".to_string()),
        content: "x < y".to_string(),
    };
    assert_eq!(render_element(&hl(), &el), "<pre><code>x &lt; y</code></pre>\n");
}

#[test]
fn known_language_is_highlighted() {
    let el = PageElement::CodeBlock {
        language: Some("rust".to_string()),
        content: "fn main() {}\n".to_string(),
    };
    let html = render_element(&hl(), &el);
    assert!(html.starts_with("<pre style="));
    assert!(html.contains("main"));
    assert_ne!(html, "<pre><code>fn main() {}\n</code></pre>\n");
}

#[test]
fn aliased_language_is_highlighted() {
    let el = PageElement::CodeBlock {
        language: Some("toml".to_string()),
        content: "key = \"value\"\n".to_string(),
    };
    let html = render_element(&hl(), &el);
    assert!(html.starts_with("<pre style="));
}

#[test]
fn link_and_image_attributes_are_escaped() {
    let inlines = vec![
        InlineElement::Link {
            text: "a<b".to_string(),
            url: "https://x.test/?q=\"v\"".to_string(),
            title: Some("the \"title\"".to_string()),
        },
        InlineElement::Image {
            alt: "pic".to_string(),
            url: "img.png".to_string(),
            title: None,
        },
    ];
    assert_eq!(
        render_inline_elements(&inlines),
        "<a href=\"https://x.test/?q=&quot;v&quot;\" title=\"the &quot;title&quot;\">a&lt;b</a><img src=\"img.png\" alt=\"pic\"/>"
    );
}

#[test]
fn emphasis_code_breaks_and_strikethrough() {
    let inlines = vec![
        InlineElement::Emphasis { level: 1, content: vec![text("it")] },
        InlineElement::Emphasis { level: 2, content: vec![text("bold")] },
        InlineElement::Emphasis { level: 9, content: vec![text("bare")] },
        InlineElement::Code("x<y".to_string()),
        InlineElement::SoftBreak,
        InlineElement::HardBreak,
        InlineElement::Strikethrough { content: vec![text("gone")] },
    ];
    assert_eq!(
        render_inline_elements(&inlines),
        "<em>it</em><strong>bold</strong>bare<code>x&lt;y</code> <br /><del>gone</del>"
    );
    assert_eq!(render_inline_elements_text(&inlines), "itboldbarex<y  gone");
}

#[test]
fn task_list_items_render_checkboxes() {
    let checked = ListItem {
        content: vec![text("done")],
        sub_items: Vec::new(),
        checked: Some(true),
    };
    let unchecked = ListItem {
        content: vec![text("todo")],
        sub_items: Vec::new(),
        checked: Some(false),
    };
    let el = PageElement::List { items: vec![checked, unchecked], ordered: false };
    let html = render_element(&hl(), &el);
    assert_eq!(
        html,
        "<ul>\n<li><input type=\"checkbox\" checked disabled/> done</li>\n<li><input type=\"checkbox\" disabled/> todo</li>\n</ul>\n"
    );
}

#[test]
fn nested_sub_items_render_nested_list() {
    let sub = ListItem { content: vec![text("inner")], sub_items: Vec::new(), checked: None };
    let item = ListItem { content: vec![text("outer")], sub_items: vec![sub], checked: None };
    let el = PageElement::List { items: vec![item], ordered: false };
    let html = render_element(&hl(), &el);
    assert_eq!(
        html,
        "<ul>\n<li>outer\n<ul>\n<li>inner</li>\n</ul>\n</li>\n</ul>\n"
    );
}

#[test]
fn heading_level_is_verbatim_and_html_passes_through() {
    let elements = vec![
        PageElement::Heading { level: 3, content: vec![text("deep")] },
        PageElement::HorizontalRule,
        PageElement::Html { content: "<custom a=\"1\">".to_string() },
    ];
    assert_eq!(
        render_elements_to_html(&hl(), &elements),
        "<h3>deep</h3>\n<hr />\n<custom a=\"1\">\n"
    );
}

#[test]
fn unknown_theme_yields_no_highlighter() {
    assert!(Highlighter::new("no-such-theme-zz").is_none());
}
