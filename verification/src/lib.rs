//! Verified core of a small static-site generator: a typed document model
//! for markdown content, a stack-based document builder that reconstructs
//! the tree from a flat event stream, an HTML renderer with escaping and
//! best-effort syntax highlighting, a slug generator for heading anchors,
//! and the page classification used when assembling a site.
pub mod text;
pub mod markdown;
pub mod document;
pub mod highlight;
pub mod render;
pub mod site;
pub mod scanner;
pub mod config;
pub mod server;

pub use config::{BuildConfig, Config, Feature, HomeConfig, Link, SiteConfig, ZapConfig};
pub use document::{get_page_structured, ElementBuilder, MdEvent, StartKind};
pub use highlight::Highlighter;
pub use markdown::{
    get_page_title, render_inline_elements_text, slugify, InlineElement, ListItem, PageElement,
};
pub use render::{render_element, render_elements_to_html, render_inline_elements};
pub use scanner::{get_extension, ScanError, SiteScanner};
pub use server::{inject_livereload_script, LiveServer, LiveServerConfig};
pub use site::{Collection, NavItem, Page, PageType, Zap};
