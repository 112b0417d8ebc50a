use zap_core::site::{apply_hero, changelog_releases, has_changelog, heading_nav_items, strip_hero_elements};
use zap_core::{
    get_extension, slugify, Collection, Highlighter, InlineElement, Page, PageElement, PageType,
    SiteScanner, ScanError, Zap,
};

fn text(s: &str) -> InlineElement {
    InlineElement::Text(s.to_string())
}

fn heading(level: u32, s: &str) -> PageElement {
    PageElement::Heading { level, content: vec![text(s)] }
}

fn paragraph(s: &str) -> PageElement {
    PageElement::Paragraph { content: vec![text(s)] }
}

#[test]
fn slug_of_getting_started() {
    assert_eq!(slugify("Getting Started!"), "getting-started");
}

#[test]
fn slug_collapses_runs_and_trims() {
    assert_eq!(slugify("  --Hello,   World!--  "), "hello-world");
    assert_eq!(slugify("ABC123"), "abc123");
    assert_eq!(slugify("!!!"), "");
    assert_eq!(slugify(""), "");
    assert_eq!(slugify("v1.0"), "v1-0");
}

#[test]
fn template_names_by_role() {
    let page = |t: PageType| Page { title: "t".to_string(), path: "p".to_string(), page_type: t };
    assert_eq!(page(PageType::Home).template_name(), "home.html");
    assert_eq!(page(PageType::Changelog).template_name(), "changelog.html");
    assert_eq!(page(PageType::Index).template_name(), "page.html");
    assert_eq!(page(PageType::Regular).template_name(), "page.html");
}

#[test]
fn scanner_classifies_by_file_name_case_insensitively() {
    let scanner = SiteScanner::new("./site".to_string());
    let page = scanner
        .scan_page("./site/README.md".to_string(), "T".to_string())
        .unwrap()
        .unwrap();
    assert!(matches!(page.page_type, PageType::Home));
    assert_eq!(page.path, "README.md");
    assert_eq!(page.title, "T");

    let page = scanner
        .scan_page("./site/docs/Changelog.MD".to_string(), "C".to_string())
        .unwrap()
        .unwrap();
    assert!(matches!(page.page_type, PageType::Changelog));
    assert_eq!(page.path, "docs/Changelog.MD");

    let page = scanner
        .scan_page("./site/index.md".to_string(), "I".to_string())
        .unwrap()
        .unwrap();
    assert!(matches!(page.page_type, PageType::Index));

    let page = scanner
        .scan_page("./site/guide.md".to_string(), "G".to_string())
        .unwrap()
        .unwrap();
    assert!(matches!(page.page_type, PageType::Regular));
}

#[test]
fn scanner_rejects_paths_outside_source_dir() {
    let scanner = SiteScanner::new("./site".to_string());
    let r = scanner.scan_page("./other/x.md".to_string(), "T".to_string());
    assert!(matches!(r, Err(ScanError::InvalidPath(_))));
}

#[test]
fn scanner_skips_paths_without_file_name() {
    let scanner = SiteScanner::new("./site".to_string());
    let r = scanner.scan_page("./site/docs/".to_string(), "T".to_string()).unwrap();
    assert!(r.is_none());
}

#[test]
fn scanner_builds_collection_from_directory_name() {
    let scanner = SiteScanner::new("./site".to_string());
    let c = scanner.scan_collection("./site/guides".to_string(), Vec::new()).unwrap();
    assert_eq!(c.name, "guides");
    assert!(c.pages.is_empty());
}

#[test]
fn extension_of_paths() {
    assert_eq!(get_extension(&"a/b.md".to_string()), "md");
    assert_eq!(get_extension(&"archive.tar.gz".to_string()), "gz");
    assert_eq!(get_extension(&"Makefile".to_string()), "Unknown");
}

#[test]
fn extension_reads_the_file_name_only() {
    assert_eq!(get_extension(&"a.b/c".to_string()), "Unknown");
    assert_eq!(get_extension(&"dir.d/file.md".to_string()), "md");
    assert_eq!(get_extension(&".md".to_string()), "Unknown");
    assert_eq!(get_extension(&"site/.gitignore".to_string()), "Unknown");
}

#[test]
fn collection_url_is_lowercased_name() {
    let c = Collection { name: "Guides".to_string(), pages: Vec::new() };
    assert_eq!(c.url(), "guides");
    let c = Collection { name: "\u{c4}rger".to_string(), pages: Vec::new() };
    assert_eq!(c.url(), "\u{e4}rger");
}

#[test]
fn zap_holds_paths_and_pages() {
    let mut zap = Zap::new("./site".to_string());
    assert_eq!(zap.scan_path, "./site");
    assert!(zap.pages().is_empty());
    assert!(zap.collections().is_empty());
    zap.set_out_path("./dist".to_string());
    assert_eq!(zap.out_path, "./dist");
    let page = zap.scan_page(&"./site/README.md".to_string(), "T".to_string()).unwrap();
    assert_eq!(page.path, "README.md");
    assert!(matches!(page.page_type, PageType::Home));
}

#[test]
fn zap_renders_a_page() {
    let zap = Zap::new("./site".to_string());
    let hl = Highlighter::new("base16-ocean.dark").unwrap();
    let elements = vec![paragraph("hi")];
    assert_eq!(zap.render_page(&hl, &elements), "<p>hi</p>\n");
}

#[test]
fn hero_strips_first_h1_and_following_paragraph() {
    let elements = vec![
        heading(1, "Title"),
        paragraph("tagline"),
        paragraph("body"),
        heading(2, "Section"),
    ];
    let stripped = strip_hero_elements(elements);
    let hl = Highlighter::new("base16-ocean.dark").unwrap();
    let html = zap_core::render_elements_to_html(&hl, &stripped);
    assert_eq!(html, "<p>body</p>\n<h2>Section</h2>\n");
}

#[test]
fn hero_keeps_lower_level_headings() {
    let elements = vec![heading(2, "Not a title"), paragraph("kept")];
    let stripped = strip_hero_elements(elements);
    assert_eq!(stripped.len(), 2);
}

#[test]
fn hero_keeps_a_paragraph_that_does_not_immediately_follow() {
    let elements = vec![
        heading(1, "Title"),
        PageElement::HorizontalRule,
        paragraph("kept: a rule stands between"),
    ];
    let stripped = strip_hero_elements(elements);
    let hl = Highlighter::new("base16-ocean.dark").unwrap();
    let html = zap_core::render_elements_to_html(&hl, &stripped);
    assert_eq!(html, "<hr />\n<p>kept: a rule stands between</p>\n");
}

#[test]
fn hero_disabled_keeps_the_document_whole() {
    let elements = vec![heading(1, "Title"), paragraph("tagline")];
    let kept = apply_hero(elements, false);
    assert_eq!(kept.len(), 2);
    let elements = vec![heading(1, "Title"), paragraph("tagline")];
    let stripped = apply_hero(elements, true);
    assert_eq!(stripped.len(), 0);
}

#[test]
fn changelog_releases_take_level_two_headings() {
    let elements = vec![
        heading(1, "Changelog"),
        heading(2, "v1.0!"),
        paragraph("notes"),
        heading(3, "details"),
        heading(2, "v0.9"),
    ];
    let releases = changelog_releases(&elements);
    assert_eq!(releases.len(), 2);
    assert_eq!(releases[0].text, "v1.0!");
    assert_eq!(releases[0].link, "#v1-0");
    assert_eq!(releases[1].text, "v0.9");
    assert_eq!(releases[1].link, "#v0-9");
}

#[test]
fn outline_takes_all_headings_but_the_title() {
    let elements = vec![
        heading(1, "Title"),
        heading(2, "One"),
        heading(3, "One point one"),
        paragraph("x"),
    ];
    let outline = heading_nav_items(&elements);
    assert_eq!(outline.len(), 2);
    assert_eq!(outline[0].text, "One");
    assert_eq!(outline[0].link, "#one");
    assert_eq!(outline[1].text, "One point one");
    assert_eq!(outline[1].link, "#one-point-one");
}

#[test]
fn first_heading_and_paragraph_queries() {
    let page = Page {
        title: "t".to_string(),
        path: "p.md".to_string(),
        page_type: PageType::Regular,
    };
    let elements = vec![paragraph("lead"), heading(1, "Top"), paragraph("second")];
    assert_eq!(page.get_first_heading(&elements).as_deref(), Some("Top"));
    assert_eq!(page.get_first_paragraph(&elements).as_deref(), Some("lead"));
    let none: Vec<PageElement> = vec![PageElement::HorizontalRule];
    assert!(page.get_first_heading(&none).is_none());
    assert!(page.get_first_paragraph(&none).is_none());
}

#[test]
fn has_changelog_finds_the_role() {
    let page = |t: PageType| Page { title: "t".to_string(), path: "p".to_string(), page_type: t };
    assert!(!has_changelog(&vec![page(PageType::Home), page(PageType::Regular)]));
    assert!(has_changelog(&vec![page(PageType::Home), page(PageType::Changelog)]));
}

#[test]
fn out_paths_by_role() {
    let page = |t: PageType, p: &str| Page {
        title: "t".to_string(),
        path: p.to_string(),
        page_type: t,
    };
    assert_eq!(zap_core::site::page_out_path(&page(PageType::Home, "README.md")), "index.html");
    assert_eq!(
        zap_core::site::page_out_path(&page(PageType::Changelog, "CHANGELOG.md")),
        "changelog/index.html"
    );
    assert_eq!(
        zap_core::site::page_out_path(&page(PageType::Index, "docs/index.md")),
        "docs/index.html"
    );
    assert_eq!(
        zap_core::site::page_out_path(&page(PageType::Regular, "docs/guide.md")),
        "docs/guide/index.html"
    );
    assert_eq!(
        zap_core::site::page_out_path(&page(PageType::Regular, "noext")),
        "noext/index.html"
    );
    assert_eq!(
        zap_core::site::page_url(&page(PageType::Regular, "docs/guide.md")),
        "docs/guide/"
    );
    assert_eq!(zap_core::site::page_url(&page(PageType::Home, "README.md")), "");
}

#[test]
fn title_case_of_words() {
    assert_eq!(zap_core::text::title_case("getting started"), "Getting Started");
    assert_eq!(zap_core::text::title_case("  MANY   spaces  "), "Many Spaces");
    assert_eq!(zap_core::text::title_case(""), "");
    assert_eq!(zap_core::text::title_case("docs"), "Docs");
}

#[test]
fn zap_scan_collection_names_by_directory() {
    let zap = Zap::new("./site".to_string());
    let c = zap.scan_collection(&"./site/guides".to_string(), Vec::new());
    assert_eq!(c.name, "guides");
    assert!(c.pages.is_empty());
}
