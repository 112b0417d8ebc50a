//! Pages, collections and the page classifier: which role a page plays
//! (home, changelog, index, regular), which template renders it, hero
//! stripping for home pages, and the navigation lists extracted from a
//! page's headings.
use vstd::prelude::*;
use vstd::string::StringExecFns;
use crate::document::{build_spec, get_page_structured, MdEvent};
use crate::markdown::{
    element_seq_view, element_view, first_heading_text, inline_seq_view, lemma_element_seq_view,
    render_inline_elements_text, slug_of, slugify, text_of_inlines, ElementV, PageElement,
};
use crate::render::{html_of_elements, render_elements_to_html};
use crate::highlight::Highlighter;
use crate::text::{
    chars_to_string, exec_tail_after_last, lemma_tail_after_last_len, lower_of, lowercase,
    rel_path_of, str_eq, tail_after_last,
};

verus! {

/// The role a page plays when the site is assembled.
#[derive(Debug, Clone)]
pub enum PageType {
    Home,
    Changelog,
    Index,
    Regular,
    Unknown,
}

/// One discovered page: its title, its path relative to the source
/// directory, and its role.
#[derive(Debug, Clone)]
pub struct Page {
    pub title: String,
    pub path: String,
    pub page_type: PageType,
}

/// One entry of a navigation list: the text shown and the target linked.
#[derive(Debug)]
pub struct NavItem {
    pub text: String,
    pub link: String,
}

/// Mathematical view of a navigation entry.
pub struct NavItemV {
    pub text: Seq<char>,
    pub link: Seq<char>,
}

/// View of a navigation entry.
pub open spec fn nav_view(n: NavItem) -> NavItemV {
    NavItemV { text: n.text@, link: n.link@ }
}

/// View of a navigation list.
pub open spec fn nav_seq_view(s: Seq<NavItem>) -> Seq<NavItemV> {
    Seq::new(s.len(), |i: int| nav_view(s[i]))
}

/// The template a page's role selects.
pub open spec fn template_name_of(t: PageType) -> Seq<char> {
    match t {
        PageType::Home => "home.html"@,
        PageType::Changelog => "changelog.html"@,
        _ => "page.html"@,
    }
}

/// The role a file name selects, compared case-insensitively (by the
/// Unicode lowercasing `lower_of` names).
pub open spec fn page_type_of(file_name: Seq<char>) -> PageType {
    let lower = lower_of(file_name);
    if lower == "readme.md"@ {
        PageType::Home
    } else if lower == "changelog.md"@ {
        PageType::Changelog
    } else if lower == "index.md"@ {
        PageType::Index
    } else {
        PageType::Regular
    }
}

/// Classifies a file name into the role its page plays.
pub fn classify_file_name(file_name: &str) -> (r: PageType)
    ensures
        r == page_type_of(file_name@),
{
    let lower = lowercase(file_name);
    if str_eq(lower.as_str(), "readme.md") {
        PageType::Home
    } else if str_eq(lower.as_str(), "changelog.md") {
        PageType::Changelog
    } else if str_eq(lower.as_str(), "index.md") {
        PageType::Index
    } else {
        PageType::Regular
    }
}

/// The flattened text of the first paragraph of a document, if any.
pub open spec fn first_paragraph_text(s: Seq<ElementV>) -> Option<Seq<char>>
    decreases s,
{
    if s.len() == 0 {
        None
    } else {
        match s[0] {
            ElementV::Paragraph { content } => Some(text_of_inlines(content)),
            _ => first_paragraph_text(s.drop_first()),
        }
    }
}

impl Page {
    /// The template this page's role selects.
    pub fn template_name(&self) -> (r: &'static str)
        ensures
            r@ == template_name_of(self.page_type),
    {
        match self.page_type {
            PageType::Home => "home.html",
            PageType::Changelog => "changelog.html",
            _ => "page.html",
        }
    }

    /// The page's document tree, built from its tokenized source.
    pub fn get_structured_elements(&self, events: &Vec<MdEvent>) -> (r: Vec<PageElement>)
        ensures
            element_seq_view(r@) == build_spec(events@),
    {
        get_page_structured(events)
    }

    /// The flattened text of the page's first heading, if it has one.
    pub fn get_first_heading(&self, elements: &Vec<PageElement>) -> (r: Option<String>)
        ensures
            (match r {
                Some(t) => first_heading_text(element_seq_view(elements@)) == Some(t@),
                None => first_heading_text(element_seq_view(elements@)) is None,
            }),
    {
        let ghost vs = element_seq_view(elements@);
        proof {
            lemma_element_seq_view(elements@);
            assert(vs.skip(0) =~= vs);
        }
        let mut i: usize = 0;
        while i < elements.len()
            invariant
                i <= elements@.len(),
                vs == element_seq_view(elements@),
                vs.len() == elements@.len(),
                first_heading_text(vs.skip(i as int)) == first_heading_text(vs),
            decreases elements@.len() - i,
        {
            let ghost i0 = i as int;
            proof {
                lemma_element_seq_view(elements@);
                assert(vs.skip(i0)[0] == vs[i0]);
                assert(vs.skip(i0).drop_first() =~= vs.skip(i0 + 1));
                assert(vs[i0] == element_view(elements@[i0]));
            }
            match &elements[i] {
                PageElement::Heading { content, .. } => {
                    return Some(render_inline_elements_text(content));
                },
                _ => {},
            }
            i = i + 1;
        }
        proof {
            assert(vs.skip(vs.len() as int) =~= Seq::<ElementV>::empty());
        }
        None
    }

    /// The flattened text of the page's first paragraph, if it has one.
    pub fn get_first_paragraph(&self, elements: &Vec<PageElement>) -> (r: Option<String>)
        ensures
            (match r {
                Some(t) => first_paragraph_text(element_seq_view(elements@)) == Some(t@),
                None => first_paragraph_text(element_seq_view(elements@)) is None,
            }),
    {
        let ghost vs = element_seq_view(elements@);
        proof {
            lemma_element_seq_view(elements@);
            assert(vs.skip(0) =~= vs);
        }
        let mut i: usize = 0;
        while i < elements.len()
            invariant
                i <= elements@.len(),
                vs == element_seq_view(elements@),
                vs.len() == elements@.len(),
                first_paragraph_text(vs.skip(i as int)) == first_paragraph_text(vs),
            decreases elements@.len() - i,
        {
            let ghost i0 = i as int;
            proof {
                lemma_element_seq_view(elements@);
                assert(vs.skip(i0)[0] == vs[i0]);
                assert(vs.skip(i0).drop_first() =~= vs.skip(i0 + 1));
                assert(vs[i0] == element_view(elements@[i0]));
            }
            match &elements[i] {
                PageElement::Paragraph { content } => {
                    return Some(render_inline_elements_text(content));
                },
                _ => {},
            }
            i = i + 1;
        }
        proof {
            assert(vs.skip(vs.len() as int) =~= Seq::<ElementV>::empty());
        }
        None
    }
}

/// A named group of pages found in one subdirectory of the source tree.
#[derive(Debug, Clone)]
pub struct Collection {
    pub name: String,
    pub pages: Vec<Page>,
}

impl Collection {
    /// The URL segment of the collection: its name, lowercased (per the
    /// Unicode lowercasing `lower_of` names).
    pub fn url(&self) -> (r: String)
        ensures
            r@ == lower_of(self.name@),
    {
        lowercase(self.name.as_str())
    }
}

/// A site rooted at a source directory, with the pages and collections
/// discovered under it.
pub struct Zap {
    pub scan_path: String,
    pub out_path: String,
    pub pages: Vec<Page>,
    pub collections: Vec<Collection>,
}

impl Zap {
    /// A site with nothing discovered yet and the conventional output path.
    pub fn new(scan_path: String) -> (r: Zap)
        ensures
            r.scan_path == scan_path,
            r.out_path@ == "./out"@,
            r.pages@.len() == 0,
            r.collections@.len() == 0,
    {
        Zap {
            scan_path,
            out_path: String::from_str("./out"),
            pages: Vec::new(),
            collections: Vec::new(),
        }
    }

    /// Replaces the output path.
    pub fn set_out_path(&mut self, path: String)
        ensures
            final(self).out_path == path,
            final(self).scan_path == old(self).scan_path,
            final(self).pages == old(self).pages,
            final(self).collections == old(self).collections,
    {
        self.out_path = path;
    }

    /// The pages discovered so far.
    pub fn pages(&self) -> (r: &Vec<Page>)
        ensures
            r == &self.pages,
    {
        &self.pages
    }

    /// The collections discovered so far.
    pub fn collections(&self) -> (r: &Vec<Collection>)
        ensures
            r == &self.collections,
    {
        &self.collections
    }

    /// Classifies one markdown file found under the scan path into a page:
    /// its role from the file name, its path relative to the scan path.
    /// A path without a file name yields no page.
    pub fn scan_page(&self, path: &String, title: String) -> (r: Option<Page>)
        requires
            self.scan_path@.len() <= path@.len(),
            path@.take(self.scan_path@.len() as int) == self.scan_path@,
        ensures
            (match r {
                Some(p) => {
                    &&& tail_after_last(path@, '/').len() > 0
                    &&& p.title == title
                    &&& p.path@ == rel_path_of(path@, self.scan_path@.len() as int)
                    &&& p.page_type == page_type_of(tail_after_last(path@, '/'))
                },
                None => tail_after_last(path@, '/').len() == 0,
            }),
    {
        let file_name_chars = crate::text::exec_tail_after_last(path.as_str(), '/');
        if file_name_chars.len() == 0 {
            return None;
        }
        let file_name = crate::text::chars_to_string(&file_name_chars);
        let page_type = classify_file_name(file_name.as_str());
        let plen = self.scan_path.as_str().unicode_len();
        let full = path.as_str().unicode_len();
        let start = if plen < full && path.as_str().get_char(plen) == '/' {
            plen + 1
        } else {
            plen
        };
        let relative = path.as_str().substring_char(start, full);
        proof {
            assert(path@.subrange(start as int, path@.len() as int) =~= rel_path_of(
                path@,
                self.scan_path@.len() as int,
            ));
        }
        Some(Page { title, path: relative.to_owned(), page_type })
    }

    /// Groups the pages scanned under one subdirectory into a collection
    /// named after the directory.
    pub fn scan_collection(&self, path: &String, pages: Vec<Page>) -> (r: Collection)
        requires
            tail_after_last(path@, '/').len() > 0,
        ensures
            r.name@ == tail_after_last(path@, '/'),
            r.pages == pages,
    {
        let name_chars = exec_tail_after_last(path.as_str(), '/');
        let name = chars_to_string(&name_chars);
        Collection { name, pages }
    }

    /// Renders a page's document tree to HTML.
    pub fn render_page(&self, hl: &Highlighter, elements: &Vec<PageElement>) -> (r: String)
        ensures
            r@ == html_of_elements(hl.theme_id(), element_seq_view(elements@)),
    {
        render_elements_to_html(hl, elements)
    }
}

/// Hero stripping while the first level-1 heading is still being looked
/// for: every element before it is kept; the heading itself is dropped,
/// and what stands immediately after it goes to
/// `strip_following_paragraph`. A document without a level-1 heading is
/// kept whole.
pub open spec fn strip_hero_rec(s: Seq<ElementV>) -> Seq<ElementV>
    decreases s,
{
    if s.len() == 0 {
        Seq::empty()
    } else {
        match s[0] {
            ElementV::Heading { level, .. } => if level == 1 {
                strip_following_paragraph(s.drop_first())
            } else {
                seq![s[0]] + strip_hero_rec(s.drop_first())
            },
            _ => seq![s[0]] + strip_hero_rec(s.drop_first()),
        }
    }
}

/// What stands immediately after the stripped heading: a paragraph there
/// is dropped with it; anything else ends the stripping, and everything
/// from it on is kept unchanged.
pub open spec fn strip_following_paragraph(s: Seq<ElementV>) -> Seq<ElementV> {
    if s.len() > 0 && s[0] is Paragraph {
        s.drop_first()
    } else {
        s
    }
}

/// What hero mode leaves of a home page: the document without its first
/// level-1 heading and without the paragraph that immediately follows that
/// heading, if one does. Nothing else moves.
pub open spec fn strip_hero_of(s: Seq<ElementV>) -> Seq<ElementV> {
    strip_hero_rec(s)
}

/// Removes the home page's hero content: the first level-1 heading, and
/// the paragraph immediately after it if the next element is one.
pub fn strip_hero_elements(elements: Vec<PageElement>) -> (r: Vec<PageElement>)
    ensures
        element_seq_view(r@) == strip_hero_of(element_seq_view(elements@)),
{
    let ghost vs0 = element_seq_view(elements@);
    let mut rest = elements;
    let mut out: Vec<PageElement> = Vec::new();
    // 0: looking for the level-1 heading; 1: the heading was just
    // stripped, the next element decides; 2: everything else is kept.
    let mut phase: u8 = 0;
    proof {
        assert(element_seq_view(out@) =~= Seq::<ElementV>::empty());
    }
    while rest.len() > 0
        invariant
            phase <= 2,
            element_seq_view(out@) + (if phase == 0 {
                strip_hero_rec(element_seq_view(rest@))
            } else if phase == 1 {
                strip_following_paragraph(element_seq_view(rest@))
            } else {
                element_seq_view(rest@)
            }) == strip_hero_of(vs0),
        decreases rest@.len(),
    {
        let ghost rest0 = rest@;
        let ghost out0 = out@;
        proof {
            lemma_element_seq_view(rest0);
            assert(element_seq_view(rest0)[0] == element_view(rest0[0]));
            assert(element_seq_view(rest0).len() == rest0.len());
            assert(element_seq_view(rest0).drop_first() =~= element_seq_view(rest0.drop_first()))
                by {
                lemma_element_seq_view(rest0.drop_first());
            }
        }
        let e = rest.remove(0);
        proof {
            assert(rest@ =~= rest0.drop_first());
        }
        let keep: bool;
        if phase == 0 {
            match &e {
                PageElement::Heading { level, .. } => {
                    if *level == 1 {
                        phase = 1;
                        keep = false;
                    } else {
                        keep = true;
                    }
                },
                _ => {
                    keep = true;
                },
            }
        } else if phase == 1 {
            phase = 2;
            match &e {
                PageElement::Paragraph { .. } => {
                    keep = false;
                },
                _ => {
                    keep = true;
                },
            }
        } else {
            keep = true;
        }
        if keep {
            proof {
                crate::document::lemma_element_seq_view_push(out@, e);
            }
            out.push(e);
            proof {
                assert(element_seq_view(out@) + (if phase == 0 {
                    strip_hero_rec(element_seq_view(rest@))
                } else if phase == 1 {
                    strip_following_paragraph(element_seq_view(rest@))
                } else {
                    element_seq_view(rest@)
                }) =~= strip_hero_of(vs0));
            }
        }
    }
    proof {
        assert(element_seq_view(rest@).len() == 0) by {
            lemma_element_seq_view(rest@);
        }
        assert(element_seq_view(rest@) =~= Seq::<ElementV>::empty());
        assert(strip_hero_rec(Seq::<ElementV>::empty()) == Seq::<ElementV>::empty());
        assert(strip_following_paragraph(Seq::<ElementV>::empty()) == Seq::<ElementV>::empty());
        assert(element_seq_view(out@) =~= strip_hero_of(vs0));
    }
    out
}

/// Applies the hero-mode policy to a home page: with hero enabled the hero
/// content is stripped; with it disabled the document passes through
/// unchanged.
pub fn apply_hero(elements: Vec<PageElement>, hero: bool) -> (r: Vec<PageElement>)
    ensures
        element_seq_view(r@) == (if hero {
            strip_hero_of(element_seq_view(elements@))
        } else {
            element_seq_view(elements@)
        }),
{
    if hero {
        strip_hero_elements(elements)
    } else {
        elements
    }
}

/// The navigation entry a heading yields: its flattened text, linked to
/// the in-page anchor its slug names.
pub open spec fn heading_nav_item(content: Seq<crate::markdown::InlineV>) -> NavItemV {
    NavItemV {
        text: text_of_inlines(content),
        link: seq!['#'] + slug_of(text_of_inlines(content)),
    }
}

/// The release list of a changelog page: one entry per level-2 heading, in
/// order. The level-1 heading is by convention the page title and yields
/// no entry; so does every other element.
pub open spec fn releases_of(s: Seq<ElementV>) -> Seq<NavItemV>
    decreases s,
{
    if s.len() == 0 {
        Seq::empty()
    } else {
        (match s[0] {
            ElementV::Heading { level, content } => if level == 2 {
                seq![heading_nav_item(content)]
            } else {
                Seq::empty()
            },
            _ => Seq::empty(),
        }) + releases_of(s.drop_first())
    }
}

/// The on-page outline of a page: one entry per heading of level other
/// than 1, in order.
pub open spec fn outline_of(s: Seq<ElementV>) -> Seq<NavItemV>
    decreases s,
{
    if s.len() == 0 {
        Seq::empty()
    } else {
        (match s[0] {
            ElementV::Heading { level, content } => if level != 1 {
                seq![heading_nav_item(content)]
            } else {
                Seq::empty()
            },
            _ => Seq::empty(),
        }) + outline_of(s.drop_first())
    }
}

fn nav_item_for_heading(content: &Vec<crate::markdown::InlineElement>) -> (r: NavItem)
    ensures
        nav_view(r) == heading_nav_item(inline_seq_view(content@)),
{
    let text = render_inline_elements_text(content);
    let slug = slugify(text.as_str());
    let mut link = String::from_str("#");
    link.append(slug.as_str());
    proof {
        reveal_strlit("#");
        assert("#"@ =~= seq!['#']);
    }
    NavItem { text, link }
}

/// The release navigation of a changelog page: its level-2 headings, each
/// linked to its own anchor.
pub fn changelog_releases(elements: &Vec<PageElement>) -> (r: Vec<NavItem>)
    ensures
        nav_seq_view(r@) == releases_of(element_seq_view(elements@)),
{
    let ghost vs = element_seq_view(elements@);
    proof {
        lemma_element_seq_view(elements@);
        assert(vs.skip(0) =~= vs);
        assert(nav_seq_view(Seq::<NavItem>::empty()) =~= Seq::<NavItemV>::empty());
    }
    let mut out: Vec<NavItem> = Vec::new();
    let mut i: usize = 0;
    while i < elements.len()
        invariant
            i <= elements@.len(),
            vs == element_seq_view(elements@),
            vs.len() == elements@.len(),
            nav_seq_view(out@) + releases_of(vs.skip(i as int)) == releases_of(vs),
        decreases elements@.len() - i,
    {
        let ghost i0 = i as int;
        let ghost out0 = out@;
        proof {
            lemma_element_seq_view(elements@);
            assert(vs.skip(i0)[0] == vs[i0]);
            assert(vs.skip(i0).drop_first() =~= vs.skip(i0 + 1));
            assert(vs[i0] == element_view(elements@[i0]));
        }
        match &elements[i] {
            PageElement::Heading { level, content } => {
                if *level == 2 {
                    let item = nav_item_for_heading(content);
                    out.push(item);
                }
            },
            _ => {},
        }
        i = i + 1;
        proof {
            assert(nav_seq_view(out@) + releases_of(vs.skip(i0 + 1)) =~= nav_seq_view(out0)
                + releases_of(vs.skip(i0)));
        }
    }
    proof {
        assert(vs.skip(vs.len() as int) =~= Seq::<ElementV>::empty());
        assert(nav_seq_view(out@) =~= releases_of(vs));
    }
    out
}

/// The side navigation of a documentation page: every heading but the
/// level-1 page title, each linked to its own anchor.
pub fn heading_nav_items(elements: &Vec<PageElement>) -> (r: Vec<NavItem>)
    ensures
        nav_seq_view(r@) == outline_of(element_seq_view(elements@)),
{
    let ghost vs = element_seq_view(elements@);
    proof {
        lemma_element_seq_view(elements@);
        assert(vs.skip(0) =~= vs);
        assert(nav_seq_view(Seq::<NavItem>::empty()) =~= Seq::<NavItemV>::empty());
    }
    let mut out: Vec<NavItem> = Vec::new();
    let mut i: usize = 0;
    while i < elements.len()
        invariant
            i <= elements@.len(),
            vs == element_seq_view(elements@),
            vs.len() == elements@.len(),
            nav_seq_view(out@) + outline_of(vs.skip(i as int)) == outline_of(vs),
        decreases elements@.len() - i,
    {
        let ghost i0 = i as int;
        let ghost out0 = out@;
        proof {
            lemma_element_seq_view(elements@);
            assert(vs.skip(i0)[0] == vs[i0]);
            assert(vs.skip(i0).drop_first() =~= vs.skip(i0 + 1));
            assert(vs[i0] == element_view(elements@[i0]));
        }
        match &elements[i] {
            PageElement::Heading { level, content } => {
                if *level != 1 {
                    let item = nav_item_for_heading(content);
                    out.push(item);
                }
            },
            _ => {},
        }
        i = i + 1;
        proof {
            assert(nav_seq_view(out@) + outline_of(vs.skip(i0 + 1)) =~= nav_seq_view(out0)
                + outline_of(vs.skip(i0)));
        }
    }
    proof {
        assert(vs.skip(vs.len() as int) =~= Seq::<ElementV>::empty());
        assert(nav_seq_view(out@) =~= outline_of(vs));
    }
    out
}

/// Whether any discovered page is the changelog.
pub fn has_changelog(pages: &Vec<Page>) -> (r: bool)
    ensures
        r == exists|i: int| 0 <= i < pages@.len() && pages@[i].page_type is Changelog,
{
    let mut i: usize = 0;
    while i < pages.len()
        invariant
            i <= pages@.len(),
            forall|j: int| 0 <= j < i ==> !(pages@[j].page_type is Changelog),
        decreases pages@.len() - i,
    {
        match &pages[i].page_type {
            PageType::Changelog => {
                return true;
            },
            _ => {},
        }
        i = i + 1;
    }
    false
}

/// The leading directory part of a path, up to and including the last
/// separator; empty when the path holds none.
pub open spec fn dir_prefix_of(path: Seq<char>) -> Seq<char> {
    path.take(path.len() - tail_after_last(path, '/').len())
}

/// The path with the extension of its file name removed; unchanged when
/// the file name holds no dot.
pub open spec fn strip_extension_of(path: Seq<char>) -> Seq<char> {
    let fname = tail_after_last(path, '/');
    let ext = tail_after_last(fname, '.');
    if ext.len() < fname.len() {
        path.take(path.len() - ext.len() - 1)
    } else {
        path
    }
}

/// Where a page's rendered document lands under the output directory: the
/// home page at the root index, the changelog under its own directory,
/// index pages beside their siblings, every other page in a directory of
/// its own.
pub open spec fn out_path_of(page_type: PageType, rel: Seq<char>) -> Seq<char> {
    match page_type {
        PageType::Home => "index.html"@,
        PageType::Changelog => "changelog/index.html"@,
        PageType::Index => dir_prefix_of(rel) + "index.html"@,
        _ => strip_extension_of(rel) + "/index.html"@,
    }
}

proof fn lemma_file_name_shorter(path: Seq<char>)
    ensures
        tail_after_last(tail_after_last(path, '/'), '.').len() <= tail_after_last(
            path,
            '/',
        ).len() <= path.len(),
{
    lemma_tail_after_last_len(path, '/');
    lemma_tail_after_last_len(tail_after_last(path, '/'), '.');
}

/// The output path of a page's rendered document, relative to the output
/// directory.
pub fn page_out_path(page: &Page) -> (r: String)
    ensures
        r@ == out_path_of(page.page_type, page.path@),
{
    match &page.page_type {
        PageType::Home => String::from_str("index.html"),
        PageType::Changelog => String::from_str("changelog/index.html"),
        PageType::Index => {
            proof {
                lemma_file_name_shorter(page.path@);
            }
            let n = page.path.as_str().unicode_len();
            let fname = exec_tail_after_last(page.path.as_str(), '/');
            let mut out = page.path.as_str().substring_char(0, n - fname.len()).to_owned();
            out.append("index.html");
            proof {
                assert(page.path@.subrange(0, page.path@.len() - tail_after_last(
                    page.path@,
                    '/',
                ).len()) =~= dir_prefix_of(page.path@));
            }
            out
        },
        _ => {
            proof {
                lemma_file_name_shorter(page.path@);
            }
            let n = page.path.as_str().unicode_len();
            let fname_chars = exec_tail_after_last(page.path.as_str(), '/');
            let fname = chars_to_string(&fname_chars);
            let ext = exec_tail_after_last(fname.as_str(), '.');
            let stem_len = if ext.len() < fname_chars.len() {
                n - ext.len() - 1
            } else {
                n
            };
            let mut out = page.path.as_str().substring_char(0, stem_len).to_owned();
            out.append("/index.html");
            proof {
                assert(page.path@.subrange(0, stem_len as int) =~= strip_extension_of(
                    page.path@,
                ));
            }
            out
        },
    }
}

/// The URL of a page: the directory part of its output path, with the
/// index document's file name dropped.
pub fn page_url(page: &Page) -> (r: String)
    ensures
        r@ == dir_prefix_of(out_path_of(page.page_type, page.path@)),
{
    let out_path = page_out_path(page);
    proof {
        lemma_file_name_shorter(out_path@);
    }
    let n = out_path.as_str().unicode_len();
    let fname = exec_tail_after_last(out_path.as_str(), '/');
    let prefix = out_path.as_str().substring_char(0, n - fname.len());
    proof {
        assert(out_path@.subrange(0, out_path@.len() - tail_after_last(
            out_path@,
            '/',
        ).len()) =~= dir_prefix_of(out_path@));
    }
    prefix.to_owned()
}

} // verus!
